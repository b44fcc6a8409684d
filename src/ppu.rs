//! The pixel processing unit: a dot-clocked walk through the scanline modes,
//! the OAM scan, and the background tile fetcher that fills the framebuffer.
use vstd::prelude::*;

use arrayvec::ArrayVec;

use crate::bus::{BusView, Ram, lemma_write_read_back};
use crate::constants::{FB_LEN, IF, LCDC, LY, OAM_START, SCRN_X, SCX, SCY};
use crate::fifo::{
    clear_objects, clear_pixels, insert_object, new_objects, new_pixels, object_at, objects_len,
    objects_of, pixels_empty, pixels_of, pop_pixel, push_pixel, Object,
};
use crate::isa::signed;

verus! {

/// Dots in one scanline.
pub const SCANLINE_DOTS: u32 = 456;

/// Dots of the OAM scan at the start of a visible line.
pub const OAM_SCAN_DOTS: u32 = 80;

/// Mode0 is HBlank, Mode1 VBlank, Mode2 the OAM scan and Mode3 drawing.
#[derive(Clone, Copy, Debug, PartialEq, Eq, Structural)]
pub enum Mode {
    Mode0,
    Mode1,
    Mode2,
    Mode3,
}

#[derive(Clone, Copy, Debug, PartialEq, Eq, Structural)]
pub enum FetchState {
    GetTile,
    GetTileDataLow,
    GetTileDataHigh,
    Push,
}

/// The background fetcher and the framebuffer it draws into.
pub struct Fetcher {
    framebuffer: Vec<u8>,
    x: u8,
    draw_x: u8,
    objects: ArrayVec<Object, 10>,
    bg_fifo: ArrayVec<u8, 8>,
    obj_fifo: ArrayVec<u8, 8>,
    state: FetchState,
    delay: u8,
    index: u8,
    tile: (u8, u8),
}

pub ghost struct FetchView {
    pub framebuffer: Seq<u8>,
    /// Pixels pushed into the FIFO on this line.
    pub x: u8,
    /// Pixels written to the framebuffer on this line.
    pub draw_x: u8,
    pub objects: Seq<Object>,
    pub bg_fifo: Seq<u8>,
    pub obj_fifo: Seq<u8>,
    pub state: FetchState,
    pub delay: u8,
    pub index: u8,
    pub tile: (u8, u8),
}

impl View for Fetcher {
    type V = FetchView;

    closed spec fn view(&self) -> FetchView {
        FetchView {
            framebuffer: self.framebuffer@,
            x: self.x,
            draw_x: self.draw_x,
            objects: objects_of(self.objects),
            bg_fifo: pixels_of(self.bg_fifo),
            obj_fifo: pixels_of(self.obj_fifo),
            state: self.state,
            delay: self.delay,
            index: self.index,
            tile: self.tile,
        }
    }
}

pub struct Ppu {
    counter: u32,
    mode: Mode,
    fetcher: Fetcher,
}

pub ghost struct PpuView {
    /// Dots elapsed in the current scanline.
    pub counter: int,
    pub mode: Mode,
    pub fetcher: FetchView,
}

impl View for Ppu {
    type V = PpuView;

    closed spec fn view(&self) -> PpuView {
        PpuView { counter: self.counter as int, mode: self.mode, fetcher: self.fetcher@ }
    }
}

impl FetchView {
    pub open spec fn wf(self) -> bool {
        &&& self.framebuffer.len() == FB_LEN
        &&& self.bg_fifo.len() <= 8
        &&& self.objects.len() <= 10
        &&& self.x < 168
        &&& self.draw_x <= SCRN_X
    }
}

impl PpuView {
    /// Sizes, and where in the line each mode can be.
    pub open spec fn wf(self) -> bool {
        &&& self.fetcher.wf()
        &&& 0 <= self.counter < SCANLINE_DOTS
        &&& self.mode == Mode::Mode2 ==> self.counter < OAM_SCAN_DOTS
        &&& self.mode == Mode::Mode3 ==> self.fetcher.x < SCRN_X && self.counter < SCANLINE_DOTS - 1
    }
}

/// The display colour (0xRRGGBB) of a colour index, darkest last.
pub open spec fn shade_of(color: u8) -> u32 {
    if color == 0 {
        0x8CDEC6
    } else if color == 1 {
        0x63A584
    } else if color == 2 {
        0x396139
    } else {
        0x101808
    }
}

/// The display colour (0xRRGGBB) of a framebuffer colour index (0..3).
pub fn shade(color: u8) -> (r: u32)
    requires
        color < 4,
    ensures
        r == shade_of(color),
{
    if color == 0 {
        0x8CDEC6
    } else if color == 1 {
        0x63A584
    } else if color == 2 {
        0x396139
    } else {
        0x101808
    }
}

/// Address of row 0 of tile `index` under the LCDC addressing mode (bit 4:
/// unsigned from 0x8000, else signed from 0x9000).
pub open spec fn tile_base(lcdc: u8, index: u8) -> int {
    if lcdc & 0x10 != 0 {
        0x8000 + index * 16
    } else {
        0x9000 + signed(index) * 16
    }
}

/// Colour index of the pixel at bit `b` of a tile row's byte pair.
pub open spec fn color(lo: u8, hi: u8, b: u8) -> u8 {
    ((lo >> b) & 1) | (((hi >> b) & 1) << 1)
}

/// The pixels of a tile row from bit `start` up, in push order.
pub open spec fn row_pixels(tile: (u8, u8), start: u8) -> Seq<u8> {
    Seq::new((8 - start) as nat, |i: int| color(tile.0, tile.1, (start + i) as u8))
}

/// The row of the background the current line shows.
pub open spec fn bg_line(m: BusView) -> int {
    (m.read(LY) + m.read(SCY)) % 256
}

/// One step of the fetcher's state machine.
pub open spec fn fetch_step(f: FetchView, m: BusView) -> FetchView {
    let lcdc = m.read(LCDC);
    let scx = m.read(SCX);
    let row_addr = tile_base(lcdc, f.index) + 2 * (bg_line(m) % 8);
    match f.state {
        FetchState::GetTile => {
            let base: int = if lcdc & 8 == 0 {
                0x9800
            } else {
                0x9C00
            };
            let tile_x = ((scx + f.x) / 8) % 32;
            let tile_y = bg_line(m) / 8;
            FetchView {
                index: m.read((base + tile_y * 32 + tile_x) as u16),
                state: FetchState::GetTileDataLow,
                delay: 1,
                ..f
            }
        },
        FetchState::GetTileDataLow => FetchView {
            tile: (m.read(row_addr as u16), f.tile.1),
            state: FetchState::GetTileDataHigh,
            delay: 1,
            ..f
        },
        FetchState::GetTileDataHigh => FetchView {
            tile: (f.tile.0, m.read((row_addr + 1) as u16)),
            state: FetchState::Push,
            delay: 1,
            ..f
        },
        FetchState::Push => {
            if f.bg_fifo.len() == 0 {
                let start: u8 = if f.x == 0 {
                    scx % 8
                } else {
                    0
                };
                FetchView {
                    bg_fifo: row_pixels(f.tile, start),
                    x: (f.x + 8 - start) as u8,
                    state: FetchState::GetTile,
                    ..f
                }
            } else {
                f
            }
        },
    }
}

/// One dot of drawing: a fetcher step (or a wait), then, once the line has
/// pixels, one pixel out of the FIFO (0 when it is empty) into the framebuffer.
pub open spec fn fetcher_dot(f: FetchView, m: BusView) -> FetchView {
    let f1 = if f.delay == 0 {
        fetch_step(f, m)
    } else {
        FetchView { delay: (f.delay - 1) as u8, ..f }
    };
    if f1.x == 0 || f1.draw_x >= SCRN_X {
        f1
    } else {
        let ly = m.read(LY);
        let pixel: u8 = if f1.bg_fifo.len() == 0 {
            0
        } else {
            f1.bg_fifo.last()
        };
        FetchView {
            bg_fifo: if f1.bg_fifo.len() == 0 {
                f1.bg_fifo
            } else {
                f1.bg_fifo.drop_last()
            },
            framebuffer: if ly < 144 {
                f1.framebuffer.update(ly * 160 + f1.draw_x, pixel)
            } else {
                f1.framebuffer
            },
            draw_x: (f1.draw_x + 1) as u8,
            ..f1
        }
    }
}

/// The fetcher at the start of drawing a line.
pub open spec fn fetcher_reset(f: FetchView) -> FetchView {
    FetchView {
        x: 0,
        draw_x: 0,
        bg_fifo: Seq::empty(),
        obj_fifo: Seq::empty(),
        state: FetchState::GetTile,
        delay: 0,
        ..f
    }
}

/// OAM slot `i` as an object.
pub open spec fn oam_entry(m: BusView, i: int) -> Object {
    let a = OAM_START + 4 * i;
    Object {
        y: m.read(a as u16),
        x: m.read((a + 1) as u16),
        index: m.read((a + 2) as u16),
        flags: m.read((a + 3) as u16),
        oam: i as u8,
    }
}

/// Object height under LCDC bit 2.
pub open spec fn obj_height(m: BusView) -> int {
    if m.read(LCDC) & 4 != 0 {
        16
    } else {
        8
    }
}

/// The objects of the first `n` OAM slots that cover the current line, in
/// OAM order, keeping the first ten.
pub open spec fn scan(m: BusView, n: int) -> Seq<Object>
    decreases n,
{
    if n <= 0 {
        Seq::empty()
    } else {
        let s = scan(m, n - 1);
        let o = oam_entry(m, n - 1);
        if s.len() < 10 && o.y <= m.read(LY) < o.y + obj_height(m) {
            s.push(o)
        } else {
            s
        }
    }
}

/// The first position from `k` on whose object has `x` at most `x`.
pub open spec fn rank_from(s: Seq<Object>, x: u8, k: int) -> int
    decreases s.len() - k,
{
    if k >= s.len() || k < 0 || s[k].x <= x {
        k
    } else {
        rank_from(s, x, k + 1)
    }
}

/// Objects in drawing priority order, lowest priority first: decreasing `x`,
/// ties broken by decreasing OAM position. `s` is in OAM order, so each object
/// goes in front of those already placed whose `x` does not exceed its own.
pub open spec fn by_priority(s: Seq<Object>) -> Seq<Object>
    decreases s.len(),
{
    if s.len() == 0 {
        s
    } else {
        let rest = by_priority(s.drop_last());
        rest.insert(rank_from(rest, s.last().x, 0), s.last())
    }
}

/// The object list after an OAM scan of the current line.
pub open spec fn oam_objects(m: BusView) -> Seq<Object> {
    by_priority(scan(m, 40))
}

/// Enters a visible line at OAM scan.
pub open spec fn enter_scan(p: PpuView, m: BusView) -> PpuView {
    PpuView {
        counter: 0,
        mode: Mode::Mode2,
        fetcher: FetchView { objects: oam_objects(m), ..p.fetcher },
    }
}

/// One dot of the PPU with the LCD on.
pub open spec fn ppu_dot(p: PpuView, m: BusView) -> (PpuView, BusView) {
    let c = p.counter + 1;
    let next_ly = ((m.read(LY) + 1) % 256) as u8;
    match p.mode {
        Mode::Mode0 => {
            if c == SCANLINE_DOTS {
                let m1 = m.write(LY, next_ly);
                if next_ly < 144 {
                    (enter_scan(p, m1), m1)
                } else {
                    (PpuView { counter: 0, mode: Mode::Mode1, ..p }, m1.write(IF, m1.read(IF) | 1))
                }
            } else {
                (PpuView { counter: c, ..p }, m)
            }
        },
        Mode::Mode1 => {
            if c == SCANLINE_DOTS {
                if next_ly > 153 {
                    let m1 = m.write(LY, 0);
                    (enter_scan(p, m1), m1)
                } else {
                    (PpuView { counter: 0, ..p }, m.write(LY, next_ly))
                }
            } else {
                (PpuView { counter: c, ..p }, m)
            }
        },
        Mode::Mode2 => {
            if c == OAM_SCAN_DOTS {
                (PpuView { counter: c, mode: Mode::Mode3, fetcher: fetcher_reset(p.fetcher) }, m)
            } else {
                (PpuView { counter: c, ..p }, m)
            }
        },
        Mode::Mode3 => {
            let f = fetcher_dot(p.fetcher, m);
            (
                PpuView {
                    counter: c,
                    mode: if f.x >= SCRN_X || c == SCANLINE_DOTS - 1 {
                        Mode::Mode0
                    } else {
                        Mode::Mode3
                    },
                    fetcher: f,
                },
                m,
            )
        },
    }
}

/// `n` dots of the PPU with the LCD on.
pub open spec fn ppu_run(p: PpuView, m: BusView, n: nat) -> (PpuView, BusView)
    decreases n,
{
    if n == 0 {
        (p, m)
    } else {
        let (p1, m1) = ppu_run(p, m, (n - 1) as nat);
        ppu_dot(p1, m1)
    }
}

proof fn lemma_by_priority_len(s: Seq<Object>)
    ensures
        by_priority(s).len() == s.len(),
    decreases s.len(),
{
    if s.len() > 0 {
        lemma_by_priority_len(s.drop_last());
        lemma_rank_splits(by_priority(s.drop_last()), s.last().x, 0);
    }
}

fn tile_addr(lcdc: u8, index: u8, row: u8) -> (r: u16)
    requires
        row < 8,
    ensures
        r == tile_base(lcdc, index) + 2 * row,
{
    if lcdc & 0x10 != 0 {
        0x8000 + index as u16 * 16 + 2 * row as u16
    } else if index < 128 {
        0x9000 + index as u16 * 16 + 2 * row as u16
    } else {
        0x9000 - (256 - index as u16) * 16 + 2 * row as u16
    }
}

impl Fetcher {
    fn new() -> (r: Fetcher)
        ensures
            r@.wf(),
            r@.framebuffer == Seq::new(FB_LEN as nat, |i: int| 0u8),
            r@.x == 0 && r@.draw_x == 0 && r@.state == FetchState::GetTile && r@.delay == 0,
            r@.bg_fifo.len() == 0 && r@.obj_fifo.len() == 0 && r@.objects.len() == 0,
    {
        let mut framebuffer: Vec<u8> = Vec::new();
        let mut i: usize = 0;
        while i < FB_LEN
            invariant
                i <= FB_LEN,
                framebuffer@ =~= Seq::new(i as nat, |j: int| 0u8),
            decreases FB_LEN - i,
        {
            framebuffer.push(0);
            i += 1;
            assert(framebuffer@ =~= Seq::new(i as nat, |j: int| 0u8));
        }
        Fetcher {
            framebuffer,
            x: 0,
            draw_x: 0,
            objects: new_objects(),
            bg_fifo: new_pixels(),
            obj_fifo: new_pixels(),
            state: FetchState::GetTile,
            delay: 0,
            index: 0,
            tile: (0, 0),
        }
    }

    fn tick(&mut self, ram: &Ram)
        requires
            old(self)@.wf(),
            old(self)@.x < SCRN_X,
            ram@.wf(),
        ensures
            final(self)@ == fetcher_dot(old(self)@, ram@),
            final(self)@.wf(),
    {
        if self.delay == 0 {
            self.tick_fetcher(ram);
        } else {
            self.delay = self.delay - 1;
        }
        if self.x == 0 || self.draw_x as usize >= SCRN_X {
            return;
        }
        let pixel = match pop_pixel(&mut self.bg_fifo) {
            Some(p) => p,
            None => 0,
        };
        let ly = ram.read(LY);
        if ly < 144 {
            self.framebuffer.set(ly as usize * SCRN_X + self.draw_x as usize, pixel);
        }
        self.draw_x = self.draw_x + 1;
    }

    fn tick_fetcher(&mut self, ram: &Ram)
        requires
            old(self)@.wf(),
            old(self)@.x < SCRN_X,
            ram@.wf(),
        ensures
            final(self)@ == fetch_step(old(self)@, ram@),
            final(self)@.wf(),
    {
        let ly = ram.read(LY);
        let lcdc = ram.read(LCDC);
        let scy = ram.read(SCY);
        let scx = ram.read(SCX);
        let line = (ly as u16 + scy as u16) % 256;
        match self.state {
            FetchState::GetTile => {
                let base: u16 = if lcdc & 8 == 0 {
                    0x9800
                } else {
                    0x9C00
                };
                let tile_x = ((scx as u16 + self.x as u16) / 8) % 32;
                let tile_y = line / 8;
                self.index = ram.read(base + tile_y * 32 + tile_x);
                self.state = FetchState::GetTileDataLow;
                self.delay = 1;
                assert(self@.index == fetch_step(old(self)@, ram@).index);
                assert(self@.framebuffer == fetch_step(old(self)@, ram@).framebuffer);
            },
            FetchState::GetTileDataLow => {
                let addr = tile_addr(lcdc, self.index, (line % 8) as u8);
                self.tile = (ram.read(addr), self.tile.1);
                self.state = FetchState::GetTileDataHigh;
                self.delay = 1;
            },
            FetchState::GetTileDataHigh => {
                let addr = tile_addr(lcdc, self.index, (line % 8) as u8);
                self.tile = (self.tile.0, ram.read(addr + 1));
                self.state = FetchState::Push;
                self.delay = 1;
            },
            FetchState::Push => {
                if pixels_empty(&self.bg_fifo) {
                    let start: u8 = if self.x == 0 {
                        scx % 8
                    } else {
                        0
                    };
                    let ghost x0 = self.x;
                    let ghost f0 = self@;
                    let mut b: u8 = start;
                    while b < 8
                        invariant
                            self@ == (FetchView { bg_fifo: pixels_of(self.bg_fifo), x: self.x, ..f0 }),
                            self.tile == f0.tile,
                            start <= b <= 8,
                            start < 8,
                            x0 < SCRN_X,
                            self.x == x0 + (b - start),
                            pixels_of(self.bg_fifo) =~= row_pixels(self.tile, start).subrange(
                                0,
                                b - start,
                            ),
                        decreases 8 - b,
                    {
                        let (lo, hi) = self.tile;
                        let pixel = ((lo >> b) & 1) | (((hi >> b) & 1) << 1);
                        push_pixel(&mut self.bg_fifo, pixel);
                        self.x = self.x + 1;
                        b = b + 1;
                        assert(pixels_of(self.bg_fifo) =~= row_pixels(self.tile, start).subrange(
                            0,
                            b - start,
                        ));
                    }
                    assert(pixels_of(self.bg_fifo) =~= row_pixels(self.tile, start));
                    self.state = FetchState::GetTile;
                }
            },
        }
    }

    fn reset(&mut self)
        requires
            old(self)@.wf(),
        ensures
            final(self)@ == fetcher_reset(old(self)@),
    {
        self.x = 0;
        self.draw_x = 0;
        clear_pixels(&mut self.bg_fifo);
        clear_pixels(&mut self.obj_fifo);
        self.state = FetchState::GetTile;
        self.delay = 0;
    }
}

impl Ppu {
    pub fn new() -> (r: Ppu)
        ensures
            r@.wf(),
            r@.counter == 0,
            r@.mode == Mode::Mode0,
            r@.fetcher.framebuffer == Seq::new(FB_LEN as nat, |i: int| 0u8),
    {
        Ppu { counter: 0, mode: Mode::Mode0, fetcher: Fetcher::new() }
    }

    pub fn mode(&self) -> (r: Mode)
        ensures
            r == self@.mode,
    {
        self.mode
    }

    /// The framebuffer: 160 x 144 colour indices, row-major.
    pub fn framebuffer(&self) -> (r: &Vec<u8>)
        ensures
            r@ == self@.fetcher.framebuffer,
    {
        &self.fetcher.framebuffer
    }

    /// The objects the last OAM scan picked, lowest priority first.
    pub fn objects(&self) -> (r: Vec<Object>)
        ensures
            r@ == self@.fetcher.objects,
    {
        let mut r: Vec<Object> = Vec::new();
        let n = objects_len(&self.fetcher.objects);
        let mut k: usize = 0;
        while k < n
            invariant
                k <= n,
                n == objects_of(self.fetcher.objects).len(),
                r@ =~= objects_of(self.fetcher.objects).subrange(0, k as int),
            decreases n - k,
        {
            r.push(object_at(&self.fetcher.objects, k));
            k += 1;
            assert(r@ =~= objects_of(self.fetcher.objects).subrange(0, k as int));
        }
        assert(r@ =~= objects_of(self.fetcher.objects));
        r
    }

    /// Advances the PPU by `dots` dots; it stands still while LCDC bit 7 is clear.
    pub fn tick(&mut self, ram: &mut Ram, dots: u8)
        requires
            old(self)@.wf(),
            old(ram)@.wf(),
        ensures
            final(self)@.wf(),
            final(ram)@.wf(),
            old(ram)@.read(LCDC) & 0x80 == 0 ==> final(self)@ == old(self)@ && final(ram)@ == old(
                ram,
            )@,
            old(ram)@.read(LCDC) & 0x80 != 0 ==> (final(self)@, final(ram)@) == ppu_run(
                old(self)@,
                old(ram)@,
                dots as nat,
            ),
    {
        let lcdc = ram.read(LCDC);
        if lcdc & 0x80 == 0 {
            return;
        }
        let mut i: u8 = 0;
        while i < dots
            invariant
                i <= dots,
                self@.wf(),
                ram@.wf(),
                (self@, ram@) == ppu_run(old(self)@, old(ram)@, i as nat),
            decreases dots - i,
        {
            self.dot(ram);
            i += 1;
        }
    }

    fn dot(&mut self, ram: &mut Ram)
        requires
            old(self)@.wf(),
            old(ram)@.wf(),
        ensures
            (final(self)@, final(ram)@) == ppu_dot(old(self)@, old(ram)@),
            final(self)@.wf(),
            final(ram)@.wf(),
    {
        let c = self.counter + 1;
        match self.mode {
            Mode::Mode0 => {
                if c == SCANLINE_DOTS {
                    let ly = ((ram.read(LY) as u16 + 1) % 256) as u8;
                    ram.write(LY, ly);
                    self.counter = 0;
                    if ly < 144 {
                        self.mode = Mode::Mode2;
                        self.oam_scan(ram);
                    } else {
                        self.mode = Mode::Mode1;
                        let flags = ram.read(IF);
                        ram.write(IF, flags | 1);
                    }
                } else {
                    self.counter = c;
                }
            },
            Mode::Mode1 => {
                if c == SCANLINE_DOTS {
                    let ly = ((ram.read(LY) as u16 + 1) % 256) as u8;
                    self.counter = 0;
                    if ly > 153 {
                        ram.write(LY, 0);
                        self.mode = Mode::Mode2;
                        self.oam_scan(ram);
                    } else {
                        ram.write(LY, ly);
                    }
                } else {
                    self.counter = c;
                }
            },
            Mode::Mode2 => {
                self.counter = c;
                if c == OAM_SCAN_DOTS {
                    self.mode = Mode::Mode3;
                    self.fetcher.reset();
                }
            },
            Mode::Mode3 => {
                self.counter = c;
                self.fetcher.tick(ram);
                // Drawing ends once the line's pixels are fetched, and at the
                // latest one dot before the line ends.
                if self.fetcher.x as usize >= SCRN_X || c == SCANLINE_DOTS - 1 {
                    self.mode = Mode::Mode0;
                }
            },
        }
    }

    /// Picks the first ten OAM entries that cover the current line and keeps
    /// them in priority order.
    fn oam_scan(&mut self, ram: &Ram)
        requires
            old(self)@.wf(),
            ram@.wf(),
        ensures
            final(self)@ == (PpuView {
                fetcher: FetchView { objects: oam_objects(ram@), ..old(self)@.fetcher },
                ..old(self)@
            }),
            oam_objects(ram@).len() <= 10,
    {
        clear_objects(&mut self.fetcher.objects);
        let ly = ram.read(LY);
        let height: u16 = if ram.read(LCDC) & 4 != 0 {
            16
        } else {
            8
        };
        let ghost m = ram@;
        let mut i: u16 = 0;
        while i < 40
            invariant
                i <= 40,
                ram@ == m,
                m.wf(),
                ly == m.read(LY),
                height == obj_height(m),
                scan(m, i as int).len() <= 10,
                objects_of(self.fetcher.objects) == by_priority(scan(m, i as int)),
                self.fetcher@ == (FetchView { objects: objects_of(self.fetcher.objects), ..old(self)@.fetcher }),
                self.counter == old(self).counter,
                self.mode == old(self).mode,
            decreases 40 - i,
        {
            proof {
                lemma_by_priority_len(scan(m, i as int));
            }
            let a = OAM_START + 4 * i;
            let y = ram.read(a);
            if objects_len(&self.fetcher.objects) < 10 && y as u16 <= ly as u16 && (ly as u16) < y
                as u16 + height {
                let o = Object {
                    y,
                    x: ram.read(a + 1),
                    index: ram.read(a + 2),
                    flags: ram.read(a + 3),
                    oam: i as u8,
                };
                let ghost placed = objects_of(self.fetcher.objects);
                let mut k: usize = 0;
                let n = objects_len(&self.fetcher.objects);
                while k < n && object_at(&self.fetcher.objects, k).x > o.x
                    invariant
                        k <= n,
                        n == placed.len(),
                        objects_of(self.fetcher.objects) == placed,
                        rank_from(placed, o.x, 0) == rank_from(placed, o.x, k as int),
                    decreases n - k,
                {
                    k += 1;
                }
                proof {
                    let s = scan(m, i + 1);
                    assert(s.drop_last() =~= scan(m, i as int));
                    assert(s.last() == o);
                }
                insert_object(&mut self.fetcher.objects, k, o);
            }
            i += 1;
        }
        proof {
            lemma_by_priority_len(scan(m, 40));
        }
    }
}

/// `a` is drawn under `b`: it has the larger `x`, or the same `x` and the
/// later OAM slot.
pub open spec fn lower_priority(a: Object, b: Object) -> bool {
    a.x > b.x || (a.x == b.x && a.oam > b.oam)
}

/// Lowest priority first: each object is drawn under every later one.
pub open spec fn in_priority_order(s: Seq<Object>) -> bool {
    forall|i: int, j: int| 0 <= i < j < s.len() ==> lower_priority(#[trigger] s[i], #[trigger] s[j])
}

/// OAM slots strictly increasing along `s`.
pub open spec fn in_oam_order(s: Seq<Object>) -> bool {
    forall|i: int, j: int| 0 <= i < j < s.len() ==> (#[trigger] s[i]).oam < (#[trigger] s[j]).oam
}

proof fn lemma_rank_splits(s: Seq<Object>, x: u8, k: int)
    requires
        0 <= k <= s.len(),
        forall|i: int| 0 <= i < k ==> (#[trigger] s[i]).x > x,
    ensures
        ({
            let r = rank_from(s, x, k);
            &&& k <= r <= s.len()
            &&& forall|i: int| 0 <= i < r ==> (#[trigger] s[i]).x > x
            &&& r < s.len() ==> s[r].x <= x
        }),
    decreases s.len() - k,
{
    if k < s.len() && s[k].x > x {
        lemma_rank_splits(s, x, k + 1);
    }
}

proof fn lemma_by_priority_sorted(s: Seq<Object>)
    requires
        in_oam_order(s),
    ensures
        in_priority_order(by_priority(s)),
        by_priority(s).to_multiset() == s.to_multiset(),
    decreases s.len(),
{
    if s.len() > 0 {
        let init = s.drop_last();
        let o = s.last();
        assert(in_oam_order(init));
        lemma_by_priority_sorted(init);
        let rest = by_priority(init);
        lemma_by_priority_len(s);
        lemma_rank_splits(rest, o.x, 0);
        let k = rank_from(rest, o.x, 0);
        let r = rest.insert(k, o);
        rest.to_multiset_ensures();
        init.to_multiset_ensures();
        assert forall|i: int| 0 <= i < rest.len() implies (#[trigger] rest[i]).oam < o.oam by {
            assert(rest.contains(rest[i]));
            assert(rest.to_multiset().count(rest[i]) > 0);
            assert(init.to_multiset().count(rest[i]) > 0);
            assert(init.contains(rest[i]));
            let t = choose|t: int| 0 <= t < init.len() && init[t] == rest[i];
            assert(s[t] == init[t]);
            assert(s[s.len() - 1] == o);
        }
        assert forall|i: int, j: int| 0 <= i < j < r.len() implies lower_priority(
            #[trigger] r[i],
            #[trigger] r[j],
        ) by {
            if j < k {
                assert(r[i] == rest[i] && r[j] == rest[j]);
            } else if j == k {
                assert(r[i] == rest[i]);
            } else if i < k {
                assert(r[i] == rest[i] && r[j] == rest[j - 1]);
            } else if i == k {
                assert(r[j] == rest[j - 1]);
                assert(rest[j - 1].x <= rest[k].x || j - 1 == k);
            } else {
                assert(r[i] == rest[i - 1] && r[j] == rest[j - 1]);
            }
        }
        assert(init.push(o) =~= s);
        vstd::seq_lib::to_multiset_insert(rest, k, o);
    }
}

proof fn lemma_scan_oam_order(m: BusView, n: int)
    requires
        0 <= n <= 40,
    ensures
        in_oam_order(scan(m, n)),
        forall|i: int| 0 <= i < scan(m, n).len() ==> (#[trigger] scan(m, n)[i]).oam < n,
    decreases n,
{
    if n > 0 {
        lemma_scan_oam_order(m, n - 1);
    }
}

/// The OAM scan keeps the first ten entries that cover the line (at most
/// ten), lowest drawing priority first: decreasing `x`, ties broken by
/// decreasing OAM position.
pub proof fn lemma_oam_scan_order(m: BusView)
    ensures
        oam_objects(m).to_multiset() == scan(m, 40).to_multiset(),
        oam_objects(m).len() <= 10,
        in_priority_order(oam_objects(m)),
{
    lemma_scan_oam_order(m, 40);
    lemma_scan_len(m, 40);
    lemma_by_priority_len(scan(m, 40));
    lemma_by_priority_sorted(scan(m, 40));
}

/// Dots in one frame: 154 lines of 456 dots.
pub open spec fn frame_dots() -> int {
    154int * 456
}

/// The PPU's place in the frame: line LY, `counter` dots into it.
pub open spec fn frame_dot(p: PpuView, m: BusView) -> int {
    m.read(LY) * 456 + p.counter
}

/// A state the PPU runs through with the LCD on: well formed, LY a line of
/// the frame, and the mode agreeing with it (VBlank exactly on lines 144..153).
pub open spec fn in_frame(p: PpuView, m: BusView) -> bool {
    &&& p.wf()
    &&& m.wf()
    &&& m.read(LY) <= 153
    &&& (p.mode == Mode::Mode1 <==> m.read(LY) >= 144)
}

/// Whether this dot raises the VBlank interrupt: the end of line 143.
pub open spec fn raises_vblank(p: PpuView, m: BusView) -> bool {
    p.mode == Mode::Mode0 && p.counter + 1 == SCANLINE_DOTS && m.read(LY) + 1 == 144
}

/// Whether this dot starts line `v`.
pub open spec fn starts_line(p: PpuView, m: BusView, v: int) -> bool {
    let (p1, m1) = ppu_dot(p, m);
    p1.counter == 0 && m1.read(LY) == v
}

/// How many of the first `n` dots from `(p, m)` start line `v`.
pub open spec fn line_starts(p: PpuView, m: BusView, n: nat, v: int) -> nat
    decreases n,
{
    if n == 0 {
        0
    } else {
        let (p1, m1) = ppu_run(p, m, (n - 1) as nat);
        line_starts(p, m, (n - 1) as nat, v) + if starts_line(p1, m1, v) {
            1nat
        } else {
            0nat
        }
    }
}

/// How many of the first `n` dots from `(p, m)` raise the VBlank interrupt.
pub open spec fn vblank_count(p: PpuView, m: BusView, n: nat) -> nat
    decreases n,
{
    if n == 0 {
        0
    } else {
        let (p1, m1) = ppu_run(p, m, (n - 1) as nat);
        vblank_count(p, m, (n - 1) as nat) + if raises_vblank(p1, m1) {
            1nat
        } else {
            0nat
        }
    }
}

/// How many `k` in `1..=n` put `start + k` on `t` modulo the frame length.
pub open spec fn hits(start: int, n: nat, t: int) -> nat
    decreases n,
{
    if n == 0 {
        0
    } else {
        hits(start, (n - 1) as nat, t) + if (start + n) % frame_dots() == t {
            1nat
        } else {
            0nat
        }
    }
}

proof fn lemma_scan_len(m: BusView, n: int)
    ensures
        scan(m, n).len() <= 10,
    decreases n,
{
    if n > 0 {
        lemma_scan_len(m, n - 1);
    }
}

proof fn lemma_fetcher_dot_wf(f: FetchView, m: BusView)
    requires
        f.wf(),
        f.x < SCRN_X,
    ensures
        fetcher_dot(f, m).wf(),
{
}

/// One dot keeps the PPU in the frame, moves it one dot on (wrapping at the
/// frame's end), and raises VBlank exactly on reaching line 144; IF is
/// written only then, with bit 0 set.
proof fn lemma_dot_in_frame(p: PpuView, m: BusView)
    requires
        in_frame(p, m),
    ensures
        in_frame(ppu_dot(p, m).0, ppu_dot(p, m).1),
        frame_dot(ppu_dot(p, m).0, ppu_dot(p, m).1) == (frame_dot(p, m) + 1) % frame_dots(),
        raises_vblank(p, m) <==> frame_dot(ppu_dot(p, m).0, ppu_dot(p, m).1) == 144 * 456,
        raises_vblank(p, m) ==> ppu_dot(p, m).1.read(IF) == m.read(IF) | 1,
        !raises_vblank(p, m) ==> ppu_dot(p, m).1.read(IF) == m.read(IF),
{
    let ly = m.read(LY);
    let next_ly = ((ly + 1) % 256) as u8;
    lemma_write_read_back(m, LY, next_ly);
    lemma_write_read_back(m, LY, 0);
    let m1 = m.write(LY, next_ly);
    lemma_write_read_back(m1, IF, m1.read(IF) | 1);
    lemma_scan_len(m1, 40);
    lemma_by_priority_len(scan(m1, 40));
    lemma_scan_len(m.write(LY, 0), 40);
    lemma_by_priority_len(scan(m.write(LY, 0), 40));
    if p.mode == Mode::Mode3 {
        lemma_fetcher_dot_wf(p.fetcher, m);
    }
    assert(frame_dot(p, m) < frame_dots());
}

proof fn lemma_run_in_frame(p: PpuView, m: BusView, n: nat)
    requires
        in_frame(p, m),
    ensures
        in_frame(ppu_run(p, m, n).0, ppu_run(p, m, n).1),
        frame_dot(ppu_run(p, m, n).0, ppu_run(p, m, n).1) == (frame_dot(p, m) + n) % frame_dots(),
    decreases n,
{
    if n > 0 {
        lemma_run_in_frame(p, m, (n - 1) as nat);
        let (p1, m1) = ppu_run(p, m, (n - 1) as nat);
        lemma_dot_in_frame(p1, m1);
        let a = frame_dot(p, m) + n - 1;
        assert(((a % frame_dots()) + 1) % frame_dots() == (a + 1) % frame_dots()) by {
            vstd::arithmetic::div_mod::lemma_add_mod_noop(a, 1, frame_dots());
            vstd::arithmetic::div_mod::lemma_small_mod(1, frame_dots() as nat);
        }
    } else {
        assert(0 <= frame_dot(p, m) < frame_dots());
        vstd::arithmetic::div_mod::lemma_small_mod(
            frame_dot(p, m) as nat,
            frame_dots() as nat,
        );
    }
}

/// Counting both kinds of event along the run as hits of the frame position.
proof fn lemma_counts_are_hits(p: PpuView, m: BusView, n: nat, v: int)
    requires
        in_frame(p, m),
        0 <= v <= 153,
    ensures
        line_starts(p, m, n, v) == hits(frame_dot(p, m), n, v * 456),
        vblank_count(p, m, n) == hits(frame_dot(p, m), n, 144int * 456),
    decreases n,
{
    if n > 0 {
        lemma_counts_are_hits(p, m, (n - 1) as nat, v);
        lemma_run_in_frame(p, m, (n - 1) as nat);
        let (p1, m1) = ppu_run(p, m, (n - 1) as nat);
        lemma_dot_in_frame(p1, m1);
        let a = frame_dot(p, m) + n - 1;
        assert(((a % frame_dots()) + 1) % frame_dots() == (a + 1) % frame_dots()) by {
            vstd::arithmetic::div_mod::lemma_add_mod_noop(a, 1, frame_dots());
            vstd::arithmetic::div_mod::lemma_small_mod(1, frame_dots() as nat);
        }
        let (p2, m2) = ppu_dot(p1, m1);
        let d = frame_dot(p2, m2);
        assert(starts_line(p1, m1, v) <==> d == v * 456) by {
            if d == v * 456 {
                assert(m2.read(LY) * 456 + p2.counter == v * 456);
                assert(m2.read(LY) == v && p2.counter == 0) by (nonlinear_arith)
                    requires
                        m2.read(LY) * 456 + p2.counter == v * 456,
                        0 <= p2.counter < 456,
                ;
            }
        }
    }
}

proof fn lemma_hits_once(start: int, n: nat, t: int)
    requires
        0 <= start < frame_dots(),
        0 <= t < frame_dots(),
        n <= frame_dots(),
    ensures
        hits(start, n, t) == if ((t - start - 1) % frame_dots()) + 1 <= n {
            1nat
        } else {
            0nat
        },
    decreases n,
{
    if n > 0 {
        lemma_hits_once(start, (n - 1) as nat, t);
    }
}

/// Frame cadence: with the LCD on, any 70224 consecutive dots start each line
/// 0..153 exactly once and raise the VBlank interrupt exactly once.
pub proof fn lemma_frame_cadence(p: PpuView, m: BusView, v: int)
    requires
        in_frame(p, m),
        0 <= v <= 153,
    ensures
        line_starts(p, m, 70224, v) == 1,
        vblank_count(p, m, 70224) == 1,
{
    lemma_counts_are_hits(p, m, 70224, v);
    assert(frame_dot(p, m) < frame_dots());
    lemma_hits_once(frame_dot(p, m), 70224, v * 456);
    lemma_hits_once(frame_dot(p, m), 70224, 144int * 456);
}

} // verus!
