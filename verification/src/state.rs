//! Architectural state of the virtual machine: registers, memory, stack,
//! display buffer, timers, and its construction and inspection.

use vstd::prelude::*;
use vstd::slice::slice_index_get;

verus! {

/// Lowest address at which a program image is placed; memory below it
/// holds the built-in font table.
pub const PC_START: u16 = 0x200;
/// Width of one instruction in bytes.
pub const OP_SIZE: u16 = 2;
/// Size of the addressable memory in bytes.
pub const RAM_SIZE: usize = 4096;
/// Width of the display in pixels.
pub const VRAM_WIDTH: usize = 64;
/// Height of the display in pixels.
pub const VRAM_HEIGHT: usize = 32;
/// Number of pixels in the display buffer.
pub const VRAM_SIZE: usize = 2048;
/// Number of general-purpose registers.
pub const NUM_REGISTERS: usize = 16;
/// Capacity of the call stack.
pub const MAX_STACK: usize = 24;
/// Number of bytes in the built-in font table (16 glyphs of 5 bytes each).
pub const FONT_BYTES: usize = 80;
/// One timer tick happens every `TIMER_RATE` executed cycles.
pub const TIMER_RATE: u8 = 10;

/// Mathematical model of the whole machine state.
#[verifier::ext_equal]
pub ghost struct CpuView {
    /// Address of the next instruction to fetch.
    pub pc: u16,
    /// Index register used for indirect memory and sprite addressing.
    pub i: u16,
    /// The 16 general-purpose 8-bit registers; register 15 doubles as
    /// the carry/borrow/collision flag.
    pub v: Seq<u8>,
    pub delay_timer: u8,
    pub sound_timer: u8,
    /// Saved return addresses, oldest first.
    pub stack: Seq<u16>,
    /// The 4096 bytes of addressable memory.
    pub ram: Seq<u8>,
    /// The 64x32 display buffer, row-major; every entry is 0 or 1.
    pub vram: Seq<u8>,
    /// Cycle counter modulo `TIMER_RATE`, driving the timer sub-rate.
    pub tick: u8,
}

impl CpuView {
    /// Well-formedness of the machine state: fixed sizes, binary pixels,
    /// bounded stack and tick counter.
    pub open spec fn wf(self) -> bool {
        &&& self.v.len() == NUM_REGISTERS
        &&& self.stack.len() <= MAX_STACK
        &&& self.ram.len() == RAM_SIZE
        &&& self.vram.len() == VRAM_SIZE
        &&& (forall|p: int| 0 <= p < VRAM_SIZE ==> self.vram[p] == 0 || self.vram[p] == 1)
        &&& self.tick < TIMER_RATE
    }
}

/// The interpreter state: one exclusively owned aggregate, mutated only
/// through the fetch/decode/execute engine.
pub struct Cpu {
    pub pc: u16,
    pub i: u16,
    pub v: Vec<u8>,
    pub delay_timer: u8,
    pub sound_timer: u8,
    pub stack: Vec<u16>,
    pub ram: Vec<u8>,
    pub vram: Vec<u8>,
    pub tick: u8,
}

impl View for Cpu {
    type V = CpuView;

    open spec fn view(&self) -> CpuView {
        CpuView {
            pc: self.pc,
            i: self.i,
            v: self.v@,
            delay_timer: self.delay_timer,
            sound_timer: self.sound_timer,
            stack: self.stack@,
            ram: self.ram@,
            vram: self.vram@,
            tick: self.tick,
        }
    }
}

/// The preloaded bitmap font: 16 glyphs (hex digits 0 through F),
/// 5 bytes per glyph.
pub closed spec fn font_table() -> Seq<u8> {
    seq![
        0xF0u8, 0x90, 0x90, 0x90, 0xF0, // 0
        0x20, 0x60, 0x20, 0x20, 0x70, // 1
        0xF0, 0x10, 0xF0, 0x80, 0xF0, // 2
        0xF0, 0x10, 0xF0, 0x10, 0xF0, // 3
        0x90, 0x90, 0xF0, 0x10, 0x10, // 4
        0xF0, 0x80, 0xF0, 0x10, 0xF0, // 5
        0xF0, 0x80, 0xF0, 0x90, 0xF0, // 6
        0xF0, 0x10, 0x20, 0x40, 0x40, // 7
        0xF0, 0x90, 0xF0, 0x90, 0xF0, // 8
        0xF0, 0x90, 0xF0, 0x10, 0xF0, // 9
        0xF0, 0x90, 0xF0, 0x90, 0x90, // A
        0xE0, 0x90, 0xE0, 0x90, 0xE0, // B
        0xF0, 0x80, 0x80, 0x80, 0xF0, // C
        0xE0, 0x90, 0x90, 0x90, 0xE0, // D
        0xF0, 0x80, 0xF0, 0x80, 0xF0, // E
        0xF0, 0x80, 0xF0, 0x80, 0x80, // F
    ]
}

/// Builds the font table as a byte vector.
fn font_set() -> (r: Vec<u8>)
    ensures
        r@ == font_table(),
        r@.len() == FONT_BYTES,
{
    let mut f: Vec<u8> = Vec::new();
    f.push(0xF0); f.push(0x90); f.push(0x90); f.push(0x90); f.push(0xF0);
    f.push(0x20); f.push(0x60); f.push(0x20); f.push(0x20); f.push(0x70);
    f.push(0xF0); f.push(0x10); f.push(0xF0); f.push(0x80); f.push(0xF0);
    f.push(0xF0); f.push(0x10); f.push(0xF0); f.push(0x10); f.push(0xF0);
    f.push(0x90); f.push(0x90); f.push(0xF0); f.push(0x10); f.push(0x10);
    f.push(0xF0); f.push(0x80); f.push(0xF0); f.push(0x10); f.push(0xF0);
    f.push(0xF0); f.push(0x80); f.push(0xF0); f.push(0x90); f.push(0xF0);
    f.push(0xF0); f.push(0x10); f.push(0x20); f.push(0x40); f.push(0x40);
    f.push(0xF0); f.push(0x90); f.push(0xF0); f.push(0x90); f.push(0xF0);
    f.push(0xF0); f.push(0x90); f.push(0xF0); f.push(0x10); f.push(0xF0);
    f.push(0xF0); f.push(0x90); f.push(0xF0); f.push(0x90); f.push(0x90);
    f.push(0xE0); f.push(0x90); f.push(0xE0); f.push(0x90); f.push(0xE0);
    f.push(0xF0); f.push(0x80); f.push(0x80); f.push(0x80); f.push(0xF0);
    f.push(0xE0); f.push(0x90); f.push(0x90); f.push(0x90); f.push(0xE0);
    f.push(0xF0); f.push(0x80); f.push(0xF0); f.push(0x80); f.push(0xF0);
    f.push(0xF0); f.push(0x80); f.push(0xF0); f.push(0x80); f.push(0x80);
    proof {
        assert(f@ =~= font_table());
    }
    f
}

/// High nibble of a byte.
pub open spec fn hi_nib(b: u8) -> u8 {
    b / 16
}

/// Low nibble of a byte.
pub open spec fn lo_nib(b: u8) -> u8 {
    b % 16
}

/// Relates the bit-level nibble extraction of the fetch path to its
/// arithmetic statement.
proof fn lemma_nibbles(b: u8)
    by (bit_vector)
    ensures
        ((b & 0xF0) >> 4u8) == b / 16,
        (b & 0x0F) == b % 16,
        b / 16 < 16,
        b % 16 < 16,
{
}

/// Decrement of a saturating 8-bit countdown timer.
pub open spec fn timer_dec(t: u8) -> u8 {
    if t > 0 { (t - 1) as u8 } else { 0 }
}

/// State after one timer tick: both timers decremented, floored at zero.
pub open spec fn spec_tick(s: CpuView) -> CpuView {
    CpuView {
        delay_timer: timer_dec(s.delay_timer),
        sound_timer: timer_dec(s.sound_timer),
        ..s
    }
}

impl Cpu {
    /// A zeroed machine: font preloaded at the bottom of memory, program
    /// counter at the program base, empty stack, blank display.
    pub fn new() -> (c: Cpu)
        ensures
            c@.wf(),
            c@.pc == PC_START,
            c@.i == 0,
            c@.delay_timer == 0,
            c@.sound_timer == 0,
            c@.tick == 0,
            c@.stack.len() == 0,
            forall|k: int| 0 <= k < NUM_REGISTERS ==> c@.v[k] == 0,
            forall|a: int| 0 <= a < FONT_BYTES ==> c@.ram[a] == font_table()[a],
            forall|a: int| FONT_BYTES <= a < RAM_SIZE ==> c@.ram[a] == 0,
            forall|p: int| 0 <= p < VRAM_SIZE ==> c@.vram[p] == 0,
    {
        let font = font_set();
        let mut ram: Vec<u8> = Vec::new();
        let mut k: usize = 0;
        while k < FONT_BYTES
            invariant
                k <= FONT_BYTES,
                font@ == font_table(),
                font@.len() == FONT_BYTES,
                ram@.len() == k,
                forall|a: int| 0 <= a < k ==> ram@[a] == font_table()[a],
            decreases FONT_BYTES - k,
        {
            ram.push(font[k]);
            k += 1;
        }
        while ram.len() < RAM_SIZE
            invariant
                FONT_BYTES <= ram@.len() <= RAM_SIZE,
                forall|a: int| 0 <= a < FONT_BYTES ==> ram@[a] == font_table()[a],
                forall|a: int| FONT_BYTES <= a < ram@.len() ==> ram@[a] == 0,
            decreases RAM_SIZE - ram@.len(),
        {
            ram.push(0);
        }
        let mut vram: Vec<u8> = Vec::new();
        while vram.len() < VRAM_SIZE
            invariant
                vram@.len() <= VRAM_SIZE,
                forall|p: int| 0 <= p < vram@.len() ==> vram@[p] == 0,
            decreases VRAM_SIZE - vram@.len(),
        {
            vram.push(0);
        }
        let mut v: Vec<u8> = Vec::new();
        while v.len() < NUM_REGISTERS
            invariant
                v@.len() <= NUM_REGISTERS,
                forall|k2: int| 0 <= k2 < v@.len() ==> v@[k2] == 0,
            decreases NUM_REGISTERS - v@.len(),
        {
            v.push(0);
        }
        Cpu {
            pc: PC_START,
            i: 0,
            v,
            delay_timer: 0,
            sound_timer: 0,
            stack: Vec::new(),
            ram,
            vram,
            tick: 0,
        }
    }

    /// Copies a program image into memory starting at the program base.
    /// The caller guarantees that the image fits in memory.
    pub fn load_rom(&mut self, rom: &[u8])
        requires
            old(self)@.wf(),
            rom@.len() <= RAM_SIZE - PC_START,
        ensures
            final(self)@.wf(),
            final(self)@ == (CpuView { ram: final(self)@.ram, ..old(self)@ }),
            final(self)@.ram.len() == RAM_SIZE,
            forall|a: int| 0 <= a < PC_START ==> final(self)@.ram[a] == old(self)@.ram[a],
            forall|a: int|
                PC_START <= a < PC_START + rom@.len() ==> final(self)@.ram[a] == rom@[a - PC_START],
            forall|a: int|
                PC_START + rom@.len() <= a < RAM_SIZE ==> final(self)@.ram[a] == old(self)@.ram[a],
    {
        let n = rom.len();
        let mut k: usize = 0;
        while k < n
            invariant
                old(self)@.wf(),
                n == rom@.len(),
                n <= RAM_SIZE - PC_START,
                k <= n,
                self@ == (CpuView { ram: self@.ram, ..old(self)@ }),
                self@.ram.len() == RAM_SIZE,
                forall|a: int| 0 <= a < PC_START ==> self@.ram[a] == old(self)@.ram[a],
                forall|a: int|
                    PC_START <= a < PC_START + k ==> self@.ram[a] == rom@[a - PC_START],
                forall|a: int|
                    PC_START + k <= a < RAM_SIZE ==> self@.ram[a] == old(self)@.ram[a],
            decreases n - k,
        {
            let b = *slice_index_get(rom, k);
            self.ram.set(0x200 + k, b);
            k += 1;
        }
    }

    /// One timer tick: each countdown timer falls by one if it is nonzero
    /// and stays at zero otherwise, so a timer never increases and never
    /// wraps below zero.
    pub fn update_timers(&mut self)
        requires
            old(self)@.wf(),
        ensures
            final(self)@.wf(),
            final(self)@ == spec_tick(old(self)@),
            final(self)@.delay_timer <= old(self)@.delay_timer,
            final(self)@.sound_timer <= old(self)@.sound_timer,
    {
        if self.delay_timer > 0 {
            self.delay_timer = self.delay_timer - 1;
        }
        if self.sound_timer > 0 {
            self.sound_timer = self.sound_timer - 1;
        }
        proof {
            assert(self@ =~= spec_tick(old(self)@));
        }
    }

    /// Reads the two instruction bytes at the program counter, advances
    /// the program counter past them, and returns the four 4-bit operand
    /// fields. A program counter pointing past the end of memory is the
    /// fatal out-of-bounds condition and leaves the state unchanged.
    pub fn fetch_op(&mut self) -> (r: Result<(u8, usize, usize, usize), crate::instr::Fault>)
        requires
            old(self)@.wf(),
        ensures
            final(self)@.wf(),
            match r {
                Ok(op) => {
                    &&& old(self)@.pc + 1 < RAM_SIZE
                    &&& crate::instr::op_wf(op)
                    &&& op.0 == hi_nib(old(self)@.ram[old(self)@.pc as int])
                    &&& op.1 == lo_nib(old(self)@.ram[old(self)@.pc as int]) as usize
                    &&& op.2 == hi_nib(old(self)@.ram[old(self)@.pc + 1]) as usize
                    &&& op.3 == lo_nib(old(self)@.ram[old(self)@.pc + 1]) as usize
                    &&& final(self)@ == (CpuView { pc: (old(self)@.pc + OP_SIZE) as u16, ..old(self)@ })
                },
                Err(f) => {
                    &&& f == crate::instr::Fault::OutOfBounds
                    &&& old(self)@.pc + 1 >= RAM_SIZE
                    &&& final(self)@ == old(self)@
                },
            },
    {
        let pc = self.pc as usize;
        if pc + 1 >= RAM_SIZE {
            return Err(crate::instr::Fault::OutOfBounds);
        }
        let b1 = self.ram[pc];
        let b2 = self.ram[pc + 1];
        self.pc = self.pc + OP_SIZE;
        proof {
            lemma_nibbles(b1);
            lemma_nibbles(b2);
            assert(self@ =~= (CpuView { pc: (old(self)@.pc + OP_SIZE) as u16, ..old(self)@ }));
        }
        Ok((
            (b1 & 0xF0) >> 4u8,
            (b1 & 0x0F) as usize,
            ((b2 & 0xF0) >> 4u8) as usize,
            (b2 & 0x0F) as usize,
        ))
    }

    /// Packs two 4-bit operand fields into the 8-bit immediate they spell.
    pub fn n2u8(n1: usize, n2: usize) -> (r: u8)
        requires
            n1 < 16,
            n2 < 16,
        ensures
            r == n1 * 16 + n2,
    {
        (n1 * 16 + n2) as u8
    }

    /// Packs three 4-bit operand fields into the 12-bit address they spell.
    pub fn n3u16(n1: usize, n2: usize, n3: usize) -> (r: u16)
        requires
            n1 < 16,
            n2 < 16,
            n3 < 16,
        ensures
            r == n1 * 256 + n2 * 16 + n3,
            r < 4096,
    {
        (n1 * 256 + n2 * 16 + n3) as u16
    }

    /// Current program counter.
    pub fn program_counter(&self) -> (r: u16)
        ensures
            r == self@.pc,
    {
        self.pc
    }

    /// Current index register.
    pub fn index_register(&self) -> (r: u16)
        ensures
            r == self@.i,
    {
        self.i
    }

    /// Value of general-purpose register `x`.
    pub fn register(&self, x: usize) -> (r: u8)
        requires
            self@.wf(),
            x < NUM_REGISTERS,
        ensures
            r == self@.v[x as int],
    {
        self.v[x]
    }

    /// Current delay timer value.
    pub fn delay(&self) -> (r: u8)
        ensures
            r == self@.delay_timer,
    {
        self.delay_timer
    }

    /// Current sound timer value.
    pub fn sound(&self) -> (r: u8)
        ensures
            r == self@.sound_timer,
    {
        self.sound_timer
    }

    /// Number of return addresses currently on the call stack.
    pub fn stack_depth(&self) -> (r: usize)
        ensures
            r == self@.stack.len(),
    {
        self.stack.len()
    }

    /// Byte of memory at `addr`.
    pub fn mem(&self, addr: usize) -> (r: u8)
        requires
            self@.wf(),
            addr < RAM_SIZE,
        ensures
            r == self@.ram[addr as int],
    {
        self.ram[addr]
    }

    /// Pixel at column `x`, row `y` of the display; exactly 0 or 1.
    pub fn pixel(&self, x: usize, y: usize) -> (r: u8)
        requires
            self@.wf(),
            x < VRAM_WIDTH,
            y < VRAM_HEIGHT,
        ensures
            r == self@.vram[x + y * VRAM_WIDTH],
            r == 0 || r == 1,
    {
        self.vram[x + y * VRAM_WIDTH]
    }

    /// Read-only snapshot of the whole display buffer, row-major.
    pub fn display(&self) -> (r: &Vec<u8>)
        ensures
            r@ == self@.vram,
    {
        &self.vram
    }
}

} // verus!
