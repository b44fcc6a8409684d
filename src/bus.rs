use vstd::prelude::*;

use crate::constants::{BANK_SIZE, DMA, IF, LCDC, MEM_SIZE, OAM_LEN, OAM_START};

verus! {

/// The bus as a mathematical value: the flat address space, the switchable
/// ROM banks loaded from the cartridge, and the selected bank.
pub ghost struct BusView {
    pub mem: Seq<u8>,
    pub banks: Seq<Seq<u8>>,
    pub active_bank: int,
}

/// Bank index selected by a write of `v` to the bank register: the cartridge's
/// bank 1 is stored at index 0, and a bank number of 0 also selects it.
pub open spec fn selected_bank(v: u8) -> int {
    if v & 0x1F == 0 {
        0
    } else {
        (v & 0x1F) - 1
    }
}

impl BusView {
    /// Sizes of the address space and of every bank.
    pub open spec fn wf(self) -> bool {
        &&& self.mem.len() == MEM_SIZE
        &&& forall|k: int| 0 <= k < self.banks.len() ==> (#[trigger] self.banks[k]).len() == BANK_SIZE
        &&& 0 <= self.active_bank < 0x20
    }

    /// Byte `k` of the switchable window `[0x4000, 0x8000)`. A bank number past
    /// the loaded count wraps around; with no bank loaded the window reads 0xFF.
    pub open spec fn window(self, k: int) -> u8 {
        if self.banks.len() == 0 {
            0xFF
        } else {
            self.banks[self.active_bank % (self.banks.len() as int)][k]
        }
    }

    pub open spec fn read(self, a: u16) -> u8 {
        if 0x4000 <= a < 0x8000 {
            self.window(a - 0x4000)
        } else if 0xE000 <= a < 0xFE00 {
            self.mem[a - 0x2000]
        } else {
            self.mem[a as int]
        }
    }

    /// The address space after an OAM DMA transfer from page `v`: the 160 bytes
    /// at `v << 8` are copied to object attribute memory.
    pub open spec fn dma_copy(self, v: u8) -> Seq<u8> {
        Seq::new(
            self.mem.len(),
            |j: int|
                if OAM_START <= j < OAM_START + OAM_LEN {
                    self.read((v * 256 + (j - OAM_START)) as u16)
                } else {
                    self.mem[j]
                },
        )
    }

    /// Writes to the RAM-enable register `[0x0000, 0x2000)` and to the upper
    /// bank / mode registers `[0x4000, 0x8000)` are accepted and ignored.
    pub open spec fn write(self, a: u16, v: u8) -> BusView {
        if a < 0x2000 {
            self
        } else if a < 0x4000 {
            BusView { active_bank: selected_bank(v), ..self }
        } else if a < 0x8000 {
            self
        } else if a == DMA {
            BusView { mem: self.dma_copy(v).update(DMA as int, v), ..self }
        } else if 0xE000 <= a < 0xFE00 {
            BusView { mem: self.mem.update(a - 0x2000, v), ..self }
        } else {
            BusView { mem: self.mem.update(a as int, v), ..self }
        }
    }
}

/// A bus the CPU reads and writes one byte at a time.
pub trait CpuBus {
    /// The bus is in a state it can be used in.
    spec fn ready(&self) -> bool;

    /// The byte a read of `i` returns.
    spec fn peek(&self, i: u16) -> u8;

    fn read(&self, i: u16) -> (r: u8)
        requires
            self.ready(),
        ensures
            r == self.peek(i),
    ;

    fn write(&mut self, i: u16, byte: u8)
        requires
            old(self).ready(),
        ensures
            final(self).ready(),
    ;
}

/// The 64 KiB address space with the cartridge's switchable ROM banks.
pub struct Ram {
    mem: Vec<u8>,
    banks: Vec<Vec<u8>>,
    active_bank: usize,
}

/// Why a cartridge image could not be loaded.
#[derive(Debug, Clone, Copy, PartialEq, Eq)]
pub enum LoadError {
    /// The image is shorter than the fixed bank 0.
    Truncated,
}

impl View for Ram {
    type V = BusView;

    closed spec fn view(&self) -> BusView {
        BusView {
            mem: self.mem@,
            banks: self.banks@.map_values(|b: Vec<u8>| b@),
            active_bank: self.active_bank as int,
        }
    }
}

/// The bus right after reset: zeroed memory but for LCDC and IF.
pub open spec fn reset_mem() -> Seq<u8> {
    Seq::new(
        MEM_SIZE as nat,
        |j: int|
            if j == LCDC {
                0x91u8
            } else if j == IF {
                0xE1u8
            } else {
                0u8
            },
    )
}

/// The banks a cartridge image brings after its fixed first 16 KiB: each
/// further complete 16 KiB chunk, in order; a partial tail is dropped.
pub open spec fn image_banks(data: Seq<u8>) -> Seq<Seq<u8>> {
    Seq::new(
        (data.len() / (BANK_SIZE as nat) - 1) as nat,
        |k: int| data.subrange((k + 1) * BANK_SIZE, (k + 2) * BANK_SIZE),
    )
}

impl Ram {
    pub fn new() -> (r: Ram)
        ensures
            r@.wf(),
            r@.mem == reset_mem(),
            r@.banks.len() == 0,
            r@.active_bank == 0,
    {
        let mut mem: Vec<u8> = Vec::new();
        let mut j: usize = 0;
        while j < MEM_SIZE
            invariant
                j <= MEM_SIZE,
                mem@ == reset_mem().subrange(0, j as int),
            decreases MEM_SIZE - j,
        {
            let b: u8 = if j == LCDC as usize {
                0x91
            } else if j == IF as usize {
                0xE1
            } else {
                0
            };
            mem.push(b);
            j += 1;
            assert(mem@ =~= reset_mem().subrange(0, j as int));
        }
        assert(mem@ =~= reset_mem());
        let r = Ram { mem, banks: Vec::new(), active_bank: 0 };
        assert(r@.banks =~= Seq::<Seq<u8>>::empty());
        r
    }

    pub fn read(&self, i: u16) -> (r: u8)
        requires
            self@.wf(),
        ensures
            r == self@.read(i),
    {
        if 0x4000 <= i && i < 0x8000 {
            let n = self.banks.len();
            if n == 0 {
                0xFF
            } else {
                let b = self.active_bank % n;
                assert(self.banks@[b as int]@ == self@.banks[b as int]);
                self.banks[b][i as usize - 0x4000]
            }
        } else if 0xE000 <= i && i < 0xFE00 {
            self.mem[i as usize - 0x2000]
        } else {
            self.mem[i as usize]
        }
    }

    pub fn write(&mut self, i: u16, val: u8)
        requires
            old(self)@.wf(),
        ensures
            final(self)@ == old(self)@.write(i, val),
            final(self)@.wf(),
    {
        if i < 0x2000 {
            // RAM enable: there is no cartridge RAM to enable.
        } else if i < 0x4000 {
            let b = val & 0x1F;
            assert(val & 0x1F < 32) by (bit_vector);
            self.active_bank = if b == 0 {
                0
            } else {
                (b - 1) as usize
            };
        } else if i < 0x8000 {
            // Upper bank bits and mode select: a 5-bit bank number is all there is.
        } else if i == DMA {
            self.oam_dma(val);
            self.mem.set(DMA as usize, val);
        } else if 0xE000 <= i && i < 0xFE00 {
            self.mem.set(i as usize - 0x2000, val);
        } else {
            self.mem.set(i as usize, val);
        }
        proof {
            assert(self@.banks =~= old(self)@.write(i, val).banks);
            assert(self@.mem =~= old(self)@.write(i, val).mem);
        }
    }

    /// Copies the 160 bytes at `page << 8` to object attribute memory.
    fn oam_dma(&mut self, page: u8)
        requires
            old(self)@.wf(),
        ensures
            final(self)@ == (BusView { mem: old(self)@.dma_copy(page), ..old(self)@ }),
    {
        let ghost start = self@;
        let src: u16 = (page as u16) * 256;
        let mut k: u16 = 0;
        while k < OAM_LEN
            invariant
                k <= OAM_LEN,
                src == page * 256,
                start.wf(),
                self@.wf(),
                self@.banks == start.banks,
                self@.active_bank == start.active_bank,
                forall|j: int|
                    0 <= j < MEM_SIZE ==> #[trigger] self@.mem[j] == if OAM_START <= j < OAM_START
                        + k {
                        start.read((page * 256 + (j - OAM_START)) as u16)
                    } else {
                        start.mem[j]
                    },
            decreases OAM_LEN - k,
        {
            let b = self.read(src + k);
            assert(b == start.read((page * 256 + k) as u16));
            self.mem.set((OAM_START + k) as usize, b);
            k += 1;
        }
        assert(self@.mem =~= start.dma_copy(page));
    }

    /// Loads a cartridge image: its first 16 KiB fill `[0x0000, 0x4000)`, and
    /// every further complete 16 KiB chunk is appended as a switchable bank.
    pub fn load(&mut self, data: &[u8]) -> (r: Result<(), LoadError>)
        requires
            old(self)@.wf(),
        ensures
            data@.len() < BANK_SIZE ==> r == Err::<(), LoadError>(LoadError::Truncated),
            data@.len() < BANK_SIZE ==> final(self)@ == old(self)@,
            final(self)@.wf(),
            data@.len() >= BANK_SIZE ==> r is Ok,
            data@.len() >= BANK_SIZE ==> final(self)@ == (BusView {
                mem: data@.subrange(0, BANK_SIZE as int) + old(self)@.mem.subrange(
                    BANK_SIZE as int,
                    MEM_SIZE as int,
                ),
                banks: old(self)@.banks + image_banks(data@),
                ..old(self)@
            }),
    {
        if data.len() < BANK_SIZE {
            return Err(LoadError::Truncated);
        }
        let ghost start = self@;
        let mut j: usize = 0;
        while j < BANK_SIZE
            invariant
                j <= BANK_SIZE <= data@.len(),
                start.wf(),
                self@.wf(),
                self@.banks == start.banks,
                self@.active_bank == start.active_bank,
                self@.mem =~= data@.subrange(0, j as int) + start.mem.subrange(
                    j as int,
                    MEM_SIZE as int,
                ),
            decreases BANK_SIZE - j,
        {
            self.mem.set(j, data[j]);
            j += 1;
            assert(self@.mem =~= data@.subrange(0, j as int) + start.mem.subrange(
                j as int,
                MEM_SIZE as int,
            ));
        }
        let n = data.len() / BANK_SIZE;
        let mut k: usize = 1;
        while k < n
            invariant
                1 <= k <= n,
                n == data@.len() / (BANK_SIZE as nat),
                start.wf(),
                self@.wf(),
                self@.active_bank == start.active_bank,
                self@.mem =~= data@.subrange(0, BANK_SIZE as int) + start.mem.subrange(
                    BANK_SIZE as int,
                    MEM_SIZE as int,
                ),
                self@.banks =~= start.banks + image_banks(data@).subrange(0, k - 1),
            decreases n - k,
        {
            assert(k * BANK_SIZE + BANK_SIZE <= data.len()) by (nonlinear_arith)
                requires
                    k < n,
                    n == data.len() / BANK_SIZE,
                    BANK_SIZE == 0x4000,
            ;
            let mut bank: Vec<u8> = Vec::new();
            let base = k * BANK_SIZE;
            let mut t: usize = 0;
            while t < BANK_SIZE
                invariant
                    t <= BANK_SIZE,
                    base == k * BANK_SIZE,
                    base + BANK_SIZE <= data@.len(),
                    bank@ =~= data@.subrange(base as int, base + t),
                decreases BANK_SIZE - t,
            {
                bank.push(data[base + t]);
                t += 1;
                assert(bank@ =~= data@.subrange(base as int, base + t));
            }
            let ghost before = self@;
            self.banks.push(bank);
            k += 1;
            proof {
                assert(self@.banks =~= before.banks.push(bank@));
                assert(image_banks(data@)[k - 2] == bank@);
                assert(image_banks(data@).subrange(0, k - 1) =~= image_banks(data@).subrange(
                    0,
                    k - 2,
                ).push(bank@));
            }
        }
        assert(image_banks(data@).subrange(0, n - 1) =~= image_banks(data@));
        Ok(())
    }
}

impl CpuBus for Ram {
    open spec fn ready(&self) -> bool {
        self@.wf()
    }

    open spec fn peek(&self, i: u16) -> u8 {
        self@.read(i)
    }

    fn read(&self, i: u16) -> (r: u8) {
        Ram::read(self, i)
    }

    fn write(&mut self, i: u16, byte: u8) {
        Ram::write(self, i, byte)
    }
}

/// Echo RAM: in every well-formed state, so before and after any write, each
/// address of `[0xE000, 0xFE00)` reads the byte 0x2000 below it.
pub proof fn lemma_echo_alias(m: BusView, a: u16, w: u16, v: u8)
    requires
        m.wf(),
        0xE000 <= a < 0xFE00,
    ensures
        m.read(a) == m.read((a - 0x2000) as u16),
        m.write(w, v).wf(),
        m.write(w, v).read(a) == m.write(w, v).read((a - 0x2000) as u16),
{
    assert(v & 0x1F < 32) by (bit_vector);
}

/// Bank window: after a write of `v` to the bank register, the window
/// `[0x4000, 0x8000)` shows bank index 0 when `v & 0x1F` is 0 or 1, and bank
/// index `n - 1` for a bank number `n >= 2`, as far as that bank is loaded.
pub proof fn lemma_bank_window(m: BusView, v: u8, k: int)
    requires
        m.wf(),
        0 <= k < BANK_SIZE,
    ensures
        (v & 0x1F) <= 1 && m.banks.len() >= 1 ==> m.write(0x2000, v).read((0x4000 + k) as u16)
            == m.banks[0][k],
        (v & 0x1F) >= 2 && (v & 0x1F) - 1 < m.banks.len() ==> m.write(0x2000, v).read(
            (0x4000 + k) as u16,
        ) == m.banks[(v & 0x1F) - 1][k],
{
    let n = m.banks.len() as int;
    if n >= 1 {
        let b = selected_bank(v);
        assert(v & 0x1F < 32) by (bit_vector);
        if 0 <= b < n {
            vstd::arithmetic::div_mod::lemma_small_mod(b as nat, n as nat);
        }
    }
}

/// A write to writable memory (at or above 0x8000) reads back, and keeps
/// the bus well formed.
pub proof fn lemma_write_read_back(m: BusView, a: u16, v: u8)
    requires
        m.wf(),
        a >= 0x8000,
    ensures
        m.write(a, v).read(a) == v,
        m.write(a, v).wf(),
{
}

/// A write to writable memory leaves the byte at the next address alone.
pub proof fn lemma_write_keeps_next(m: BusView, a: u16, v: u8)
    requires
        m.wf(),
        0x8000 <= a < 0xFFFF,
    ensures
        m.write(a, v).read((a + 1) as u16) == m.read((a + 1) as u16),
{
}

/// Every write keeps the bus well formed.
pub proof fn lemma_write_wf(m: BusView, a: u16, v: u8)
    requires
        m.wf(),
    ensures
        m.write(a, v).wf(),
{
    assert(v & 0x1F < 32) by (bit_vector);
}

} // verus!
