//! The fetch-decode-execute engine: the mathematical transition function
//! of every instruction, and the verified executable engine that matches it.

use vstd::prelude::*;
use vstd::arithmetic::div_mod::{
    lemma_fundamental_div_mod, lemma_fundamental_div_mod_converse_div,
    lemma_fundamental_div_mod_converse_mod, lemma_mod_add_multiples_vanish,
    lemma_mod_division_less_than_divisor, lemma_small_mod,
};
use crate::instr::{decode, instr_wf, op_wf, spec_decode, Fault, Instr};
use crate::state::{
    hi_nib, lo_nib, spec_tick, Cpu, CpuView, MAX_STACK, RAM_SIZE, TIMER_RATE, VRAM_SIZE,
};

verus! {

/// Program counter advanced past one instruction, wrapping at 16 bits.
pub open spec fn pc_plus2(pc: u16) -> u16 {
    ((pc + 2) % 0x10000) as u16
}

/// State with register `x` set to `val`.
pub open spec fn set_reg(s: CpuView, x: int, val: u8) -> CpuView {
    CpuView { v: s.v.update(x, val), ..s }
}

/// State with the next instruction skipped when `cond` holds.
pub open spec fn skip_if(s: CpuView, cond: bool) -> CpuView {
    if cond {
        CpuView { pc: pc_plus2(s.pc), ..s }
    } else {
        s
    }
}

/// The signed reading of an 8-bit register value.
pub open spec fn as_signed(a: u8) -> int {
    if a < 128 {
        a as int
    } else {
        a - 256
    }
}

/// Whether the key named by the low nibble of `k` is down in the 16-key
/// bitmask `keys`; values of `k` outside the keypad count as not pressed.
pub open spec fn key_pressed(keys: u16, k: u8) -> bool {
    k < 16 && ((keys >> (k as u16)) & 1) == 1
}

/// Bit `k` (counted from the least significant end) of byte `b`.
pub open spec fn nth_bit(b: u8, k: u8) -> u8 {
    (b >> k) & 1
}

/// The sprite bit that a draw of height `n` at (`vx`, `vy`), reading
/// sprite rows from memory at `i`, lays over display position `p`
/// (0 when no sprite bit covers `p`). Both coordinates wrap: column
/// modulo 64, row modulo 32.
pub open spec fn draw_bit(ram: Seq<u8>, i: int, n: int, vx: int, vy: int, p: int) -> u8 {
    let hp = (p / 64 - vy % 32) % 32;
    let wp = (p % 64 - vx % 64) % 64;
    if hp < n && wp < 8 {
        nth_bit(ram[i + hp], (7 - wp) as u8)
    } else {
        0
    }
}

/// Whether the draw turns any set pixel off: some position holds a set
/// pixel and receives a set sprite bit.
pub open spec fn draw_collision(ram: Seq<u8>, vram: Seq<u8>, i: int, n: int, vx: int, vy: int) -> bool {
    exists|p: int| 0 <= p < 2048 && vram[p] == 1 && #[trigger] draw_bit(ram, i, n, vx, vy, p) == 1
}

/// State after a sprite draw: every covered pixel XORed with its sprite
/// bit, and register 15 set to 1 exactly when a collision happened.
pub open spec fn spec_draw(s: CpuView, vx: int, vy: int, n: int) -> CpuView {
    CpuView {
        vram: Seq::new(2048, |p: int| s.vram[p] ^ draw_bit(s.ram, s.i as int, n, vx, vy, p)),
        v: s.v.update(
            15,
            if draw_collision(s.ram, s.vram, s.i as int, n, vx, vy) {
                1u8
            } else {
                0u8
            },
        ),
        ..s
    }
}

/// The transition function of one decoded instruction: the successor
/// state, or the fatal condition that aborts the run. `rnd` is the random
/// byte consumed by the random instruction and ignored by every other;
/// `keys` is the keypad bitmask consulted by the key-skip instructions.
pub open spec fn spec_execute(s: CpuView, instr: Instr, rnd: u8, keys: u16) -> Result<
    CpuView,
    Fault,
> {
    match instr {
        Instr::Cls => Ok(CpuView { vram: Seq::new(2048, |p: int| 0u8), ..s }),
        Instr::Ret => if s.stack.len() == 0 {
            Err(Fault::StackUnderflow)
        } else {
            Ok(CpuView { pc: s.stack.last(), stack: s.stack.drop_last(), ..s })
        },
        Instr::Jump(nnn) => Ok(CpuView { pc: nnn, ..s }),
        Instr::Call(nnn) => if s.stack.len() >= MAX_STACK {
            Err(Fault::StackOverflow)
        } else {
            Ok(CpuView { pc: nnn, stack: s.stack.push(s.pc), ..s })
        },
        Instr::SkipEqImm(x, nn) => Ok(skip_if(s, s.v[x as int] == nn)),
        Instr::SkipNeImm(x, nn) => Ok(skip_if(s, s.v[x as int] != nn)),
        Instr::SkipEqReg(x, y) => Ok(skip_if(s, s.v[x as int] == s.v[y as int])),
        Instr::SetImm(x, nn) => Ok(set_reg(s, x as int, nn)),
        Instr::AddImm(x, nn) => Ok(
            set_reg(s, x as int, ((s.v[x as int] + nn) % 256) as u8),
        ),
        Instr::Mov(x, y) => Ok(set_reg(s, x as int, s.v[y as int])),
        Instr::Or(x, y) => Ok(set_reg(s, x as int, s.v[x as int] | s.v[y as int])),
        Instr::And(x, y) => Ok(set_reg(s, x as int, s.v[x as int] & s.v[y as int])),
        Instr::Xor(x, y) => Ok(set_reg(s, x as int, s.v[x as int] ^ s.v[y as int])),
        Instr::Add(x, y) => {
            let sum = s.v[x as int] + s.v[y as int];
            let s1 = set_reg(s, 15, if sum > 255 { 1u8 } else { 0u8 });
            Ok(set_reg(s1, x as int, (sum % 256) as u8))
        },
        Instr::Sub(x, y) => {
            let borrow = as_signed(s.v[x as int]) - as_signed(s.v[y as int]) < 0;
            let diff = ((s.v[x as int] - s.v[y as int]) % 256) as u8;
            let s1 = set_reg(s, 15, if borrow { 1u8 } else { 0u8 });
            Ok(set_reg(s1, x as int, diff))
        },
        Instr::Shr(x) => {
            let s1 = set_reg(s, 15, (s.v[x as int] % 2) as u8);
            Ok(set_reg(s1, x as int, (s1.v[x as int] / 2) as u8))
        },
        Instr::Shl(x) => {
            let s1 = set_reg(s, 15, if s.v[x as int] >= 128 { 128u8 } else { 0u8 });
            Ok(set_reg(s1, x as int, ((s1.v[x as int] * 2) % 256) as u8))
        },
        Instr::SkipNeReg(x, y) => Ok(skip_if(s, s.v[x as int] != s.v[y as int])),
        Instr::SetIndex(nnn) => Ok(CpuView { i: nnn, ..s }),
        Instr::JumpV0(nnn) => Ok(CpuView { pc: ((nnn + s.v[0]) % 0x10000) as u16, ..s }),
        Instr::Rand(x, nn) => Ok(set_reg(s, x as int, rnd & nn)),
        Instr::Draw(x, y, n) => if s.i + n > RAM_SIZE {
            Err(Fault::OutOfBounds)
        } else {
            Ok(spec_draw(s, s.v[x as int] as int, s.v[y as int] as int, n as int))
        },
        Instr::SkipKey(x) => Ok(skip_if(s, key_pressed(keys, s.v[x as int]))),
        Instr::SkipNoKey(x) => Ok(skip_if(s, !key_pressed(keys, s.v[x as int]))),
        Instr::GetDelay(x) => Ok(set_reg(s, x as int, s.delay_timer)),
        Instr::SetDelay(x) => Ok(CpuView { delay_timer: s.v[x as int], ..s }),
        Instr::SetSound(x) => Ok(CpuView { sound_timer: s.v[x as int], ..s }),
        Instr::AddIndex(x) => Ok(CpuView { i: ((s.i + s.v[x as int]) % 0x10000) as u16, ..s }),
        Instr::Font(n) => Ok(CpuView { i: (n * 5) as u16, ..s }),
        Instr::Bcd(x) => if s.i + 2 >= RAM_SIZE {
            Err(Fault::OutOfBounds)
        } else {
            let val = s.v[x as int];
            Ok(
                CpuView {
                    ram: s.ram.update(s.i as int, (val / 100) as u8).update(
                        s.i + 1,
                        ((val / 10) % 10) as u8,
                    ).update(s.i + 2, (val % 10) as u8),
                    ..s
                },
            )
        },
        Instr::Store(x) => if s.i + x >= RAM_SIZE {
            Err(Fault::OutOfBounds)
        } else {
            Ok(
                CpuView {
                    ram: Seq::new(
                        4096,
                        |a: int|
                            if s.i <= a < s.i + x + 1 {
                                s.v[a - s.i]
                            } else {
                                s.ram[a]
                            },
                    ),
                    ..s
                },
            )
        },
        Instr::Load(x) => if s.i + x >= RAM_SIZE {
            Err(Fault::OutOfBounds)
        } else {
            Ok(
                CpuView {
                    v: Seq::new(
                        16,
                        |k: int|
                            if 0 <= k < x + 1 {
                                s.ram[s.i + k]
                            } else {
                                s.v[k]
                            },
                    ),
                    ..s
                },
            )
        },
    }
}

/// A pixel the row-major scan of a draw has already visited, when the
/// scan stands at sprite row `h`, column `w`.
pub open spec fn drawn(vx: int, vy: int, n: int, h: int, w: int, p: int) -> bool {
    let hp = (p / 64 - vy % 32) % 32;
    let wp = (p % 64 - vx % 64) % 64;
    hp < n && wp < 8 && (hp < h || (hp == h && wp < w))
}

/// A bit extracted from a byte is 0 or 1.
pub(crate) proof fn lemma_bit01(b: u8, k: u8)
    by (bit_vector)
    requires
        k < 8,
    ensures
        ((b >> k) & 1) == 0 || ((b >> k) & 1) == 1,
{
}

/// XOR of two pixel values.
pub(crate) proof fn lemma_xor01(a: u8, b: u8)
    by (bit_vector)
    requires
        a == 0 || a == 1,
        b == 0 || b == 1,
    ensures
        (a ^ b) == (if a == b { 0u8 } else { 1u8 }),
{
}

/// AND of two pixel values.
pub(crate) proof fn lemma_and01(a: u8, b: u8)
    by (bit_vector)
    requires
        a == 0 || a == 1,
        b == 0 || b == 1,
    ensures
        (a & b) == (if a == 1 && b == 1 { 1u8 } else { 0u8 }),
{
}

/// OR of two pixel values.
pub(crate) proof fn lemma_or01(a: u8, b: u8)
    by (bit_vector)
    requires
        a == 0 || a == 1,
        b == 0 || b == 1,
    ensures
        (a | b) == (if a == 1 || b == 1 { 1u8 } else { 0u8 }),
{
}

/// A sprite bit laid over any display position is 0 or 1.
pub(crate) proof fn lemma_draw_bit01(ram: Seq<u8>, i: int, n: int, vx: int, vy: int, p: int)
    ensures
        draw_bit(ram, i, n, vx, vy, p) == 0 || draw_bit(ram, i, n, vx, vy, p) == 1,
{
    let hp = (p / 64 - vy % 32) % 32;
    let wp = (p % 64 - vx % 64) % 64;
    lemma_mod_division_less_than_divisor(p % 64 - vx % 64, 64);
    if hp < n && wp < 8 {
        lemma_bit01(ram[i + hp], (7 - wp) as u8);
    }
}

/// Wrapped-coordinate arithmetic: adding an offset below the modulus and
/// reducing lands on the unique residue from which the offset can be
/// recovered.
proof fn lemma_wrap_coord(base: int, off: int, m: int)
    requires
        0 <= base,
        0 <= off < m,
    ensures
        0 <= (base + off) % m < m,
        ((base + off) % m - base % m) % m == off,
{
    let b = base % m;
    lemma_mod_division_less_than_divisor(base, m);
    lemma_mod_division_less_than_divisor(base + off, m);
    lemma_mod_add_multiples_vanish(b + off, m);
    assert((base + off) % m == (b + off) % m) by {
        vstd::arithmetic::div_mod::lemma_add_mod_noop(base, off, m);
        lemma_small_mod(off as nat, m as nat);
    }
    let r0 = (base + off) % m;
    if b + off < m {
        lemma_small_mod((b + off) as nat, m as nat);
        assert(r0 == b + off);
        lemma_small_mod(off as nat, m as nat);
        assert((r0 - b) % m == off);
    } else {
        assert((b + off) % m == (b + off - m) % m) by {
            lemma_mod_add_multiples_vanish(b + off - m, m);
        }
        lemma_small_mod((b + off - m) as nat, m as nat);
        assert(r0 == b + off - m);
        assert((r0 - b) % m == (off - m) % m);
        lemma_mod_add_multiples_vanish(off - m, m);
        lemma_small_mod(off as nat, m as nat);
        assert((r0 - b) % m == off);
    }
}

/// Converse direction of `lemma_wrap_coord`: a residue in range from
/// which the offset is recovered is the wrapped sum.
proof fn lemma_wrap_coord_conv(base: int, off: int, m: int, r: int)
    requires
        0 <= base,
        0 <= off < m,
        0 <= r < m,
        (r - base % m) % m == off,
    ensures
        r == (base + off) % m,
{
    let b = base % m;
    lemma_mod_division_less_than_divisor(base, m);
    lemma_wrap_coord(base, off, m);
    let r0 = (base + off) % m;
    if r >= b {
        lemma_small_mod((r - b) as nat, m as nat);
        assert(off == r - b);
    } else {
        lemma_mod_add_multiples_vanish(r - b, m);
        lemma_small_mod((r - b + m) as nat, m as nat);
        assert(off == r - b + m);
    }
    if r0 >= b {
        lemma_small_mod((r0 - b) as nat, m as nat);
    } else {
        lemma_mod_add_multiples_vanish(r0 - b, m);
        lemma_small_mod((r0 - b + m) as nat, m as nat);
    }
}

/// The display position written at sprite row `h`, column `w` lies in
/// the buffer and decodes back to exactly `h` and `w`.
proof fn lemma_pos_coords(vx: int, vy: int, h: int, w: int, pos: int)
    requires
        0 <= vx,
        0 <= vy,
        0 <= h < 32,
        0 <= w < 8,
        pos == (vx + w) % 64 + ((vy + h) % 32) * 64,
    ensures
        0 <= pos < 2048,
        pos / 64 == (vy + h) % 32,
        pos % 64 == (vx + w) % 64,
        (pos / 64 - vy % 32) % 32 == h,
        (pos % 64 - vx % 64) % 64 == w,
{
    let c = (vx + w) % 64;
    let r = (vy + h) % 32;
    lemma_mod_division_less_than_divisor(vx + w, 64);
    lemma_mod_division_less_than_divisor(vy + h, 32);
    assert(0 <= pos < 2048);
    lemma_fundamental_div_mod_converse_div(pos, 64, r, c);
    lemma_fundamental_div_mod_converse_mod(pos, 64, r, c);
    lemma_wrap_coord(vy, h, 32);
    lemma_wrap_coord(vx, w, 64);
}

/// No display position other than the one written at (`h`, `w`) decodes
/// to that row and column.
proof fn lemma_pos_unique(vx: int, vy: int, h: int, w: int, p: int, pos: int)
    requires
        0 <= vx,
        0 <= vy,
        0 <= h < 32,
        0 <= w < 8,
        0 <= p < 2048,
        pos == (vx + w) % 64 + ((vy + h) % 32) * 64,
        (p / 64 - vy % 32) % 32 == h,
        (p % 64 - vx % 64) % 64 == w,
    ensures
        p == pos,
{
    lemma_mod_division_less_than_divisor(p, 64);
    assert(0 <= p % 64 < 64);
    assert(0 <= p / 64 < 32) by {
        lemma_fundamental_div_mod(p, 64);
        lemma_mod_division_less_than_divisor(p, 64);
    }
    lemma_wrap_coord_conv(vy, h, 32, p / 64);
    lemma_wrap_coord_conv(vx, w, 64, p % 64);
    lemma_fundamental_div_mod(p, 64);
    lemma_pos_coords(vx, vy, h, w, pos);
}

/// Relies on `rand::random`: a byte drawn from the thread-local
/// generator. Nothing is promised of the value; every caller's contract
/// holds for every byte that may come back.
#[verifier::external_body]
fn random_byte() -> u8 {
    rand::random::<u8>()
}

impl Cpu {
    /// Executes one decoded instruction. The successor state is exactly
    /// the one the transition function gives; a fatal condition is
    /// returned as its fault and leaves the state unchanged.
    pub fn execute(&mut self, instr: Instr, rnd: u8, keys: u16) -> (r: Result<(), Fault>)
        requires
            old(self)@.wf(),
            instr_wf(instr),
        ensures
            final(self)@.wf(),
            match r {
                Ok(()) => spec_execute(old(self)@, instr, rnd, keys) == Ok::<CpuView, Fault>(
                    final(self)@,
                ),
                Err(f) => spec_execute(old(self)@, instr, rnd, keys) == Err::<CpuView, Fault>(f)
                    && final(self)@ == old(self)@,
            },
    {
        let ghost s = self@;
        match instr {
            Instr::Cls => {
                let mut k: usize = 0;
                while k < VRAM_SIZE
                    invariant
                        old(self)@.wf(),
                        k <= VRAM_SIZE,
                        self@ == (CpuView { vram: self@.vram, ..old(self)@ }),
                        self@.vram.len() == VRAM_SIZE,
                        forall|p: int| 0 <= p < k ==> self@.vram[p] == 0,
                        forall|p: int| k <= p < VRAM_SIZE ==> self@.vram[p] == old(self)@.vram[p],
                    decreases VRAM_SIZE - k,
                {
                    self.vram.set(k, 0);
                    k += 1;
                }
                proof {
                    assert(self@ =~= (CpuView { vram: Seq::new(2048, |p: int| 0u8), ..s }));
                }
                Ok(())
            },
            Instr::Ret => {
                match self.stack.pop() {
                    None => Err(Fault::StackUnderflow),
                    Some(a) => {
                        self.pc = a;
                        proof {
                            assert(self@ =~= (CpuView {
                                pc: s.stack.last(),
                                stack: s.stack.drop_last(),
                                ..s
                            }));
                        }
                        Ok(())
                    },
                }
            },
            Instr::Jump(nnn) => {
                self.pc = nnn;
                Ok(())
            },
            Instr::Call(nnn) => {
                if self.stack.len() >= MAX_STACK {
                    Err(Fault::StackOverflow)
                } else {
                    self.stack.push(self.pc);
                    self.pc = nnn;
                    Ok(())
                }
            },
            Instr::SkipEqImm(x, nn) => {
                if self.v[x] == nn {
                    self.advance_pc();
                }
                Ok(())
            },
            Instr::SkipNeImm(x, nn) => {
                if self.v[x] != nn {
                    self.advance_pc();
                }
                Ok(())
            },
            Instr::SkipEqReg(x, y) => {
                if self.v[x] == self.v[y] {
                    self.advance_pc();
                }
                Ok(())
            },
            Instr::SetImm(x, nn) => {
                self.v.set(x, nn);
                Ok(())
            },
            Instr::AddImm(x, nn) => {
                let val = ((self.v[x] as u16 + nn as u16) % 256) as u8;
                self.v.set(x, val);
                Ok(())
            },
            Instr::Mov(x, y) => {
                let val = self.v[y];
                self.v.set(x, val);
                Ok(())
            },
            Instr::Or(x, y) => {
                let val = self.v[x] | self.v[y];
                self.v.set(x, val);
                Ok(())
            },
            Instr::And(x, y) => {
                let val = self.v[x] & self.v[y];
                self.v.set(x, val);
                Ok(())
            },
            Instr::Xor(x, y) => {
                let val = self.v[x] ^ self.v[y];
                self.v.set(x, val);
                Ok(())
            },
            Instr::Add(x, y) => {
                let sum = self.v[x] as u16 + self.v[y] as u16;
                let flag: u8 = if sum > 255 { 1 } else { 0 };
                self.v.set(15, flag);
                self.v.set(x, (sum % 256) as u8);
                Ok(())
            },
            Instr::Sub(x, y) => {
                let a = self.v[x];
                let b = self.v[y];
                let sa: i16 = if a >= 128 { a as i16 - 256 } else { a as i16 };
                let sb: i16 = if b >= 128 { b as i16 - 256 } else { b as i16 };
                let flag: u8 = if sa - sb < 0 { 1 } else { 0 };
                let diff = (((a as u16 + 256) - b as u16) % 256) as u8;
                self.v.set(15, flag);
                self.v.set(x, diff);
                proof {
                    lemma_mod_add_multiples_vanish(a - b, 256);
                }
                Ok(())
            },
            Instr::Shr(x) => {
                let flag = self.v[x] % 2;
                self.v.set(15, flag);
                let cur = self.v[x];
                self.v.set(x, cur / 2);
                Ok(())
            },
            Instr::Shl(x) => {
                let flag: u8 = if self.v[x] >= 128 { 128 } else { 0 };
                self.v.set(15, flag);
                let cur = self.v[x];
                self.v.set(x, ((cur as u16 * 2) % 256) as u8);
                Ok(())
            },
            Instr::SkipNeReg(x, y) => {
                if self.v[x] != self.v[y] {
                    self.advance_pc();
                }
                Ok(())
            },
            Instr::SetIndex(nnn) => {
                self.i = nnn;
                Ok(())
            },
            Instr::JumpV0(nnn) => {
                let target = nnn + self.v[0] as u16;
                proof {
                    lemma_small_mod(target as nat, 0x10000nat);
                }
                self.pc = target;
                Ok(())
            },
            Instr::Rand(x, nn) => {
                self.v.set(x, rnd & nn);
                Ok(())
            },
            Instr::Draw(x, y, n) => self.draw_sprite(x, y, n),
            Instr::SkipKey(x) => {
                let kv = self.v[x];
                let pressed = kv < 16 && ((keys >> (kv as u16)) & 1) == 1;
                if pressed {
                    self.advance_pc();
                }
                Ok(())
            },
            Instr::SkipNoKey(x) => {
                let kv = self.v[x];
                let pressed = kv < 16 && ((keys >> (kv as u16)) & 1) == 1;
                if !pressed {
                    self.advance_pc();
                }
                Ok(())
            },
            Instr::GetDelay(x) => {
                let val = self.delay_timer;
                self.v.set(x, val);
                Ok(())
            },
            Instr::SetDelay(x) => {
                self.delay_timer = self.v[x];
                Ok(())
            },
            Instr::SetSound(x) => {
                self.sound_timer = self.v[x];
                Ok(())
            },
            Instr::AddIndex(x) => {
                let sum = ((self.i as u32 + self.v[x] as u32) % 0x10000) as u16;
                self.i = sum;
                Ok(())
            },
            Instr::Font(n) => {
                self.i = (n * 5) as u16;
                Ok(())
            },
            Instr::Bcd(x) => {
                let ii = self.i as usize;
                if ii + 2 >= RAM_SIZE {
                    Err(Fault::OutOfBounds)
                } else {
                    let val = self.v[x];
                    self.ram.set(ii, val / 100);
                    self.ram.set(ii + 1, (val / 10) % 10);
                    self.ram.set(ii + 2, val % 10);
                    Ok(())
                }
            },
            Instr::Store(x) => {
                let ii = self.i as usize;
                if ii + x >= RAM_SIZE {
                    Err(Fault::OutOfBounds)
                } else {
                    let mut k: usize = 0;
                    while k <= x
                        invariant
                            old(self)@.wf(),
                            x < 16,
                            ii == old(self)@.i,
                            ii + x < RAM_SIZE,
                            k <= x + 1,
                            self@ == (CpuView { ram: self@.ram, ..old(self)@ }),
                            self@.ram.len() == RAM_SIZE,
                            forall|a: int|
                                0 <= a < RAM_SIZE ==> #[trigger] self@.ram[a] == (if ii <= a < ii
                                    + k {
                                    old(self)@.v[a - ii]
                                } else {
                                    old(self)@.ram[a]
                                }),
                        decreases x + 1 - k,
                    {
                        let val = self.v[k];
                        self.ram.set(ii + k, val);
                        k += 1;
                    }
                    proof {
                        assert(self@ =~= (CpuView {
                            ram: Seq::new(
                                4096,
                                |a: int|
                                    if s.i <= a < s.i + x + 1 {
                                        s.v[a - s.i]
                                    } else {
                                        s.ram[a]
                                    },
                            ),
                            ..s
                        }));
                    }
                    Ok(())
                }
            },
            Instr::Load(x) => {
                let ii = self.i as usize;
                if ii + x >= RAM_SIZE {
                    Err(Fault::OutOfBounds)
                } else {
                    let mut k: usize = 0;
                    while k <= x
                        invariant
                            old(self)@.wf(),
                            x < 16,
                            ii == old(self)@.i,
                            ii + x < RAM_SIZE,
                            k <= x + 1,
                            self@ == (CpuView { v: self@.v, ..old(self)@ }),
                            self@.v.len() == 16,
                            forall|j: int|
                                0 <= j < 16 ==> #[trigger] self@.v[j] == (if 0 <= j < k {
                                    old(self)@.ram[ii + j]
                                } else {
                                    old(self)@.v[j]
                                }),
                        decreases x + 1 - k,
                    {
                        let val = self.ram[ii + k];
                        self.v.set(k, val);
                        k += 1;
                    }
                    proof {
                        assert(self@ =~= (CpuView {
                            v: Seq::new(
                                16,
                                |j: int|
                                    if 0 <= j < x + 1 {
                                        s.ram[s.i + j]
                                    } else {
                                        s.v[j]
                                    },
                            ),
                            ..s
                        }));
                    }
                    Ok(())
                }
            },
        }
    }

    /// Advances the program counter past the next instruction, wrapping
    /// at 16 bits, as the skip instructions do.
    fn advance_pc(&mut self)
        ensures
            final(self)@ == (CpuView { pc: pc_plus2(old(self)@.pc), ..old(self)@ }),
    {
        self.pc = ((self.pc as u32 + 2) % 0x10000) as u16;
    }

    /// Draws an `n`-byte sprite from memory at the index register onto
    /// the display at (register `x`, register `y`), XORing pixels and
    /// reporting collisions in register 15.
    #[verifier::loop_isolation(false)]
    fn draw_sprite(&mut self, x: usize, y: usize, n: usize) -> (r: Result<(), Fault>)
        requires
            old(self)@.wf(),
            x < 16,
            y < 16,
            n < 16,
        ensures
            final(self)@.wf(),
            match r {
                Ok(()) => old(self)@.i + n <= RAM_SIZE && final(self)@ == spec_draw(
                    old(self)@,
                    old(self)@.v[x as int] as int,
                    old(self)@.v[y as int] as int,
                    n as int,
                ),
                Err(f) => f == Fault::OutOfBounds && old(self)@.i + n > RAM_SIZE && final(self)@
                    == old(self)@,
            },
    {
        let ghost s = self@;
        let i = self.i as usize;
        if i + n > RAM_SIZE {
            return Err(Fault::OutOfBounds);
        }
        let vx = self.v[x] as usize;
        let vy = self.v[y] as usize;
        self.v.set(15, 0);
        let ghost gi = i as int;
        let ghost gn = n as int;
        let ghost gx = vx as int;
        let ghost gy = vy as int;
        let mut h: usize = 0;
        while h < n
            invariant
                h <= n,
                self@.wf(),
                self@ == (CpuView { v: self@.v, vram: self@.vram, ..s }),
                self@.v == s.v.update(15, self@.v[15]),
                self@.v[15] == 0 || self@.v[15] == 1,
                forall|p: int|
                    0 <= p < 2048 ==> #[trigger] self@.vram[p] == (if drawn(
                        gx,
                        gy,
                        gn,
                        h as int,
                        0,
                        p,
                    ) {
                        s.vram[p] ^ draw_bit(s.ram, gi, gn, gx, gy, p)
                    } else {
                        s.vram[p]
                    }),
                self@.v[15] == 1 ==> draw_collision(s.ram, s.vram, gi, gn, gx, gy),
                forall|p: int|
                    0 <= p < 2048 && s.vram[p] == 1 && #[trigger] draw_bit(s.ram, gi, gn, gx, gy, p)
                        == 1 && drawn(gx, gy, gn, h as int, 0, p) ==> self@.v[15] == 1,
            decreases n - h,
        {
            let row = self.ram[i + h];
            let mut w: usize = 0;
            while w < 8
                invariant
                    h < n,
                    w <= 8,
                    row == s.ram[gi + h],
                    self@.wf(),
                    self@ == (CpuView { v: self@.v, vram: self@.vram, ..s }),
                    self@.v == s.v.update(15, self@.v[15]),
                    self@.v[15] == 0 || self@.v[15] == 1,
                    forall|p: int|
                        0 <= p < 2048 ==> #[trigger] self@.vram[p] == (if drawn(
                            gx,
                            gy,
                            gn,
                            h as int,
                            w as int,
                            p,
                        ) {
                            s.vram[p] ^ draw_bit(s.ram, gi, gn, gx, gy, p)
                        } else {
                            s.vram[p]
                        }),
                    self@.v[15] == 1 ==> draw_collision(s.ram, s.vram, gi, gn, gx, gy),
                    forall|p: int|
                        0 <= p < 2048 && s.vram[p] == 1 && #[trigger] draw_bit(
                            s.ram,
                            gi,
                            gn,
                            gx,
                            gy,
                            p,
                        ) == 1 && drawn(gx, gy, gn, h as int, w as int, p) ==> self@.v[15] == 1,
                decreases 8 - w,
            {
                let k = (7 - w) as u8;
                let bit = (row >> k) & 1;
                let pos = (vx + w) % 64 + ((vy + h) % 32) * 64;
                proof {
                    lemma_pos_coords(gx, gy, h as int, w as int, pos as int);
                    lemma_bit01(row, k);
                    assert(draw_bit(s.ram, gi, gn, gx, gy, pos as int) == bit);
                    assert(!drawn(gx, gy, gn, h as int, w as int, pos as int));
                }
                let cur = self.vram[pos];
                let flag = self.v[15] | (cur & bit);
                proof {
                    lemma_and01(cur, bit);
                    lemma_or01(self@.v[15] as u8, (cur & bit) as u8);
                    lemma_xor01(cur, bit);
                }
                let ghost old_flag = self@.v[15];
                self.v.set(15, flag);
                self.vram.set(pos, cur ^ bit);
                proof {
                    // the freshly written pixel
                    assert(drawn(gx, gy, gn, h as int, (w + 1) as int, pos as int));
                    // every other pixel keeps its status
                    assert forall|p: int|
                        0 <= p < 2048 && p != pos as int implies (drawn(
                        gx,
                        gy,
                        gn,
                        h as int,
                        (w + 1) as int,
                        p,
                    ) == drawn(gx, gy, gn, h as int, w as int, p)) by {
                        if drawn(gx, gy, gn, h as int, (w + 1) as int, p) && !drawn(
                            gx,
                            gy,
                            gn,
                            h as int,
                            w as int,
                            p,
                        ) {
                            lemma_pos_unique(gx, gy, h as int, w as int, p, pos as int);
                        }
                    }
                    // collision soundness: a newly raised flag has a witness
                    if flag == 1 && old_flag == 0 {
                        assert(s.vram[pos as int] == 1 && draw_bit(s.ram, gi, gn, gx, gy, pos as int)
                            == 1);
                        assert(draw_collision(s.ram, s.vram, gi, gn, gx, gy));
                    }
                }
                w += 1;
            }
            proof {
                assert forall|p: int| 0 <= p < 2048 implies (drawn(
                    gx,
                    gy,
                    gn,
                    (h + 1) as int,
                    0,
                    p,
                ) == drawn(gx, gy, gn, h as int, 8, p)) by {}
            }
            h += 1;
        }
        proof {
            let t = spec_draw(s, gx, gy, gn);
            assert forall|p: int| 0 <= p < 2048 implies self@.vram[p] == t.vram[p] by {
                if draw_bit(s.ram, gi, gn, gx, gy, p) == 1 {
                    assert(drawn(gx, gy, gn, gn, 0, p));
                } else {
                    let a = s.vram[p];
                    lemma_xor01(a, 0);
                }
            }
            if self@.v[15] == 0 {
                assert(!draw_collision(s.ram, s.vram, gi, gn, gx, gy)) by {
                    if draw_collision(s.ram, s.vram, gi, gn, gx, gy) {
                        let p0 = choose|p: int|
                            0 <= p < 2048 && s.vram[p] == 1 && #[trigger] draw_bit(
                                s.ram,
                                gi,
                                gn,
                                gx,
                                gy,
                                p,
                            ) == 1;
                        assert(drawn(gx, gy, gn, gn, 0, p0));
                    }
                }
            }
            assert(self@ =~= t);
        }
        Ok(())
    }

    /// Decodes the operand fields of one fetched instruction and executes
    /// it, drawing the byte for the random instruction from the outside
    /// generator and treating every key as not pressed, since no input
    /// adapter is wired in.
    pub fn decode_op(&mut self, op: (u8, usize, usize, usize)) -> (r: Result<(), Fault>)
        requires
            old(self)@.wf(),
            op_wf(op),
        ensures
            final(self)@.wf(),
            exists|rnd: u8| #[trigger] op_transition(old(self)@, final(self)@, op, rnd, r),
    {
        match decode(op) {
            Err(f) => {
                proof {
                    assert(op_transition(old(self)@, self@, op, 0u8, Err::<(), Fault>(f)));
                }
                Err(f)
            },
            Ok(instr) => {
                proof {
                    crate::instr::lemma_decode_wf(op);
                }
                let rnd = random_byte();
                let r = self.execute(instr, rnd, 0);
                proof {
                    assert(op_transition(old(self)@, self@, op, rnd, r));
                }
                r
            },
        }
    }

    /// Runs one interpreter cycle: fetch, decode, execute, and every
    /// `TIMER_RATE`th cycle one timer tick. A fatal condition is returned
    /// as its fault; the program counter keeps the value the fetch gave it,
    /// as the run is over either way.
    pub fn cycle(&mut self) -> (r: Result<(), Fault>)
        requires
            old(self)@.wf(),
        ensures
            final(self)@.wf(),
            exists|rnd: u8| #[trigger] cycle_transition(old(self)@, final(self)@, rnd, r),
    {
        let r: Result<(), Fault>;
        let ghost mut wit: u8 = 0u8;
        match self.fetch_op() {
            Err(f) => {
                r = Err(f);
            },
            Ok(op) => {
                let ghost s1 = self@;
                proof {
                    assert(s1 == (CpuView { pc: (old(self)@.pc + 2) as u16, ..old(self)@ }));
                }
                let res = self.decode_op(op);
                match res {
                    Err(f) => {
                        proof {
                            wit = choose|rnd: u8| #[trigger] op_transition(
                                s1,
                                self@,
                                op,
                                rnd,
                                res,
                            );
                            assert(op_transition(s1, self@, op, wit, res));
                        }
                        r = Err(f);
                    },
                    Ok(()) => {
                        let ghost mid = self@;
                        if self.tick == 0 {
                            self.update_timers();
                        }
                        self.tick = (self.tick + 1) % TIMER_RATE;
                        proof {
                            wit = choose|rnd: u8| #[trigger] op_transition(s1, mid, op, rnd, res);
                            assert(op_transition(s1, mid, op, wit, res));
                            assert(self@ =~= (CpuView {
                                tick: ((mid.tick + 1) % 10) as u8,
                                ..(if mid.tick == 0 {
                                    spec_tick(mid)
                                } else {
                                    mid
                                })
                            }));
                        }
                        r = Ok(());
                    },
                }
            },
        }
        proof {
            assert(cycle_transition(old(self)@, self@, wit, r));
        }
        r
    }
}

/// One decode-and-execute step from state `s` with operand fields `op`
/// and random byte `rnd` yields outcome `r` and state `t`; with no input
/// adapter, every key reads as not pressed.
pub open spec fn op_transition(
    s: CpuView,
    t: CpuView,
    op: (u8, usize, usize, usize),
    rnd: u8,
    r: Result<(), Fault>,
) -> bool {
    match spec_decode(op) {
        Err(f) => r == Err::<(), Fault>(f) && t == s,
        Ok(instr) => match spec_execute(s, instr, rnd, 0) {
            Ok(t2) => r is Ok && t == t2,
            Err(f) => r == Err::<(), Fault>(f) && t == s,
        },
    }
}

/// One whole interpreter cycle from state `s` with random byte `rnd`:
/// fetch (failing when the program counter runs off memory), decode,
/// execute, then the timer sub-rate step.
pub open spec fn cycle_transition(s: CpuView, t: CpuView, rnd: u8, r: Result<(), Fault>) -> bool {
    if s.pc + 1 >= RAM_SIZE {
        r == Err::<(), Fault>(Fault::OutOfBounds) && t == s
    } else {
        let b1 = s.ram[s.pc as int];
        let b2 = s.ram[s.pc + 1];
        let op = (hi_nib(b1), lo_nib(b1) as usize, hi_nib(b2) as usize, lo_nib(b2) as usize);
        let s1 = CpuView { pc: (s.pc + 2) as u16, ..s };
        match spec_decode(op) {
            Err(f) => r == Err::<(), Fault>(f) && t == s1,
            Ok(instr) => match spec_execute(s1, instr, rnd, 0) {
                Err(f) => r == Err::<(), Fault>(f) && t == s1,
                Ok(s2) => {
                    let s3 = if s2.tick == 0 {
                        spec_tick(s2)
                    } else {
                        s2
                    };
                    r is Ok && t == (CpuView {
                        tick: ((s2.tick + 1) % 10) as u8,
                        ..s3
                    })
                },
            },
        }
    }
}

} // verus!
