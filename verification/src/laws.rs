//! Laws of the instruction set: properties that relate whole instructions
//! or several executions, stated over the transition function and proved
//! once and for all.

use vstd::prelude::*;
use vstd::arithmetic::div_mod::lemma_mod_add_multiples_vanish;
use crate::exec::{
    as_signed, draw_bit, draw_collision, lemma_draw_bit01, lemma_xor01, spec_draw, spec_execute,
};
use crate::instr::Instr;
use crate::state::{spec_tick, CpuView, MAX_STACK, RAM_SIZE};

verus! {

/// Law: for all 8-bit register values `a` and `b`, the add instruction
/// stores the wrapped sum `(a + b) mod 256` in the destination register
/// and sets register 15 to 1 exactly when the unwrapped sum exceeds 255,
/// and to 0 otherwise. Stated for a destination other than register 15,
/// which the stored sum would overwrite.
pub proof fn lemma_add_carry(s: CpuView, x: usize, y: usize, rnd: u8, keys: u16)
    requires
        s.wf(),
        x < 16,
        y < 16,
        x != 15,
    ensures
        spec_execute(s, Instr::Add(x, y), rnd, keys) is Ok,
        ({
            let a = s.v[x as int];
            let b = s.v[y as int];
            let t = spec_execute(s, Instr::Add(x, y), rnd, keys)->Ok_0;
            &&& t.v[x as int] == (a + b) % 256
            &&& (t.v[15] == 1 <==> a + b > 255)
            &&& (t.v[15] == 0 <==> a + b <= 255)
        }),
{
}

/// Law: for all 8-bit register values `a` and `b`, the subtract
/// instruction stores the wrapped difference `(a - b) mod 256` in the
/// destination register and sets register 15 to 1 exactly when the
/// signed reading of `a` is below the signed reading of `b`. Stated for
/// a destination other than register 15, which the stored difference
/// would overwrite.
pub proof fn lemma_sub_borrow(s: CpuView, x: usize, y: usize, rnd: u8, keys: u16)
    requires
        s.wf(),
        x < 16,
        y < 16,
        x != 15,
    ensures
        spec_execute(s, Instr::Sub(x, y), rnd, keys) is Ok,
        ({
            let a = s.v[x as int];
            let b = s.v[y as int];
            let t = spec_execute(s, Instr::Sub(x, y), rnd, keys)->Ok_0;
            &&& t.v[x as int] == (a - b) % 256
            &&& (t.v[15] == 1 <==> as_signed(a) < as_signed(b))
            &&& (t.v[15] == 0 <==> as_signed(a) >= as_signed(b))
        }),
{
}

/// Law: drawing the same sprite twice at the same position restores the
/// display buffer (XOR is self-inverse), and the second draw reports a
/// collision exactly when the first draw set some pixel. Stated for
/// coordinate registers other than register 15, whose value the first
/// draw's collision flag would change.
pub proof fn lemma_draw_restores(s: CpuView, x: usize, y: usize, n: usize, rnd: u8, keys: u16)
    requires
        s.wf(),
        x < 16,
        y < 16,
        x != 15,
        y != 15,
        n < 16,
        s.i + n <= RAM_SIZE,
    ensures
        spec_execute(s, Instr::Draw(x, y, n), rnd, keys) is Ok,
        ({
            let t1 = spec_execute(s, Instr::Draw(x, y, n), rnd, keys)->Ok_0;
            &&& spec_execute(t1, Instr::Draw(x, y, n), rnd, keys) is Ok
            &&& spec_execute(t1, Instr::Draw(x, y, n), rnd, keys)->Ok_0.vram == s.vram
            &&& (spec_execute(t1, Instr::Draw(x, y, n), rnd, keys)->Ok_0.v[15] == 1 <==> exists|
                p: int,
            |
                0 <= p < 2048 && s.vram[p] == 0 && #[trigger] t1.vram[p] == 1)
        }),
{
    let gx = s.v[x as int] as int;
    let gy = s.v[y as int] as int;
    let gi = s.i as int;
    let gn = n as int;
    let t1 = spec_draw(s, gx, gy, gn);
    assert(t1.v[x as int] == s.v[x as int]);
    assert(t1.v[y as int] == s.v[y as int]);
    assert(spec_execute(s, Instr::Draw(x, y, n), rnd, keys)->Ok_0 == t1);
    let t2 = spec_draw(t1, gx, gy, gn);
    assert(spec_execute(t1, Instr::Draw(x, y, n), rnd, keys)->Ok_0 == t2);
    assert forall|p: int| 0 <= p < 2048 implies t2.vram[p] == s.vram[p] by {
        let b = draw_bit(s.ram, gi, gn, gx, gy, p);
        lemma_draw_bit01(s.ram, gi, gn, gx, gy, p);
        lemma_xor01(s.vram[p], b);
        lemma_xor01((s.vram[p] ^ b) as u8, b);
        assert(t1.vram[p] == s.vram[p] ^ b);
        assert(t2.vram[p] == t1.vram[p] ^ b);
    }
    assert(t2.vram =~= s.vram);
    // the second draw's flag is set exactly when the first draw set a pixel
    if t2.v[15] == 1 {
        let p0 = choose|p: int|
            0 <= p < 2048 && t1.vram[p] == 1 && #[trigger] draw_bit(t1.ram, gi, gn, gx, gy, p)
                == 1;
        lemma_draw_bit01(s.ram, gi, gn, gx, gy, p0);
        lemma_xor01(s.vram[p0], draw_bit(s.ram, gi, gn, gx, gy, p0));
        assert(s.vram[p0] == 0 && t1.vram[p0] == 1);
    }
    if exists|p: int| 0 <= p < 2048 && s.vram[p] == 0 && #[trigger] t1.vram[p] == 1 {
        let p0 = choose|p: int| 0 <= p < 2048 && s.vram[p] == 0 && #[trigger] t1.vram[p] == 1;
        let b = draw_bit(s.ram, gi, gn, gx, gy, p0);
        lemma_draw_bit01(s.ram, gi, gn, gx, gy, p0);
        lemma_xor01(s.vram[p0], b);
        assert(t1.vram[p0] == 1 && draw_bit(t1.ram, gi, gn, gx, gy, p0) == 1);
        assert(draw_collision(t1.ram, t1.vram, gi, gn, gx, gy));
    }
}

/// Law: sprite coordinates wrap rather than clip. Drawing at a column
/// offset by the display width, or a row offset by the display height,
/// yields exactly the same state as drawing at the original coordinates.
pub proof fn lemma_draw_wraps(s: CpuView, vx: int, vy: int, n: int)
    requires
        0 <= vx,
        0 <= vy,
    ensures
        spec_draw(s, vx + 64, vy, n) == spec_draw(s, vx, vy, n),
        spec_draw(s, vx, vy + 32, n) == spec_draw(s, vx, vy, n),
{
    let gi = s.i as int;
    assert forall|p: int| true implies draw_bit(s.ram, gi, n, vx + 64, vy, p) == draw_bit(
        s.ram,
        gi,
        n,
        vx,
        vy,
        p,
    ) && draw_bit(s.ram, gi, n, vx, vy + 32, p) == draw_bit(s.ram, gi, n, vx, vy, p) by {
        lemma_mod_add_multiples_vanish(vx, 64);
        lemma_mod_add_multiples_vanish(vy, 32);
    }
    assert(spec_draw(s, vx + 64, vy, n).vram =~= spec_draw(s, vx, vy, n).vram);
    assert(spec_draw(s, vx, vy + 32, n).vram =~= spec_draw(s, vx, vy, n).vram);
    assert(draw_collision(s.ram, s.vram, gi, n, vx + 64, vy) == draw_collision(
        s.ram,
        s.vram,
        gi,
        n,
        vx,
        vy,
    )) by {
        if draw_collision(s.ram, s.vram, gi, n, vx + 64, vy) {
            let p0 = choose|p: int|
                0 <= p < 2048 && s.vram[p] == 1 && #[trigger] draw_bit(s.ram, gi, n, vx + 64, vy, p)
                    == 1;
            assert(draw_bit(s.ram, gi, n, vx, vy, p0) == 1);
        }
        if draw_collision(s.ram, s.vram, gi, n, vx, vy) {
            let p0 = choose|p: int|
                0 <= p < 2048 && s.vram[p] == 1 && #[trigger] draw_bit(s.ram, gi, n, vx, vy, p)
                    == 1;
            assert(draw_bit(s.ram, gi, n, vx + 64, vy, p0) == 1);
        }
    }
    assert(draw_collision(s.ram, s.vram, gi, n, vx, vy + 32) == draw_collision(
        s.ram,
        s.vram,
        gi,
        n,
        vx,
        vy,
    )) by {
        if draw_collision(s.ram, s.vram, gi, n, vx, vy + 32) {
            let p0 = choose|p: int|
                0 <= p < 2048 && s.vram[p] == 1 && #[trigger] draw_bit(s.ram, gi, n, vx, vy + 32, p)
                    == 1;
            assert(draw_bit(s.ram, gi, n, vx, vy, p0) == 1);
        }
        if draw_collision(s.ram, s.vram, gi, n, vx, vy) {
            let p0 = choose|p: int|
                0 <= p < 2048 && s.vram[p] == 1 && #[trigger] draw_bit(s.ram, gi, n, vx, vy, p)
                    == 1;
            assert(draw_bit(s.ram, gi, n, vx, vy + 32, p0) == 1);
        }
    }
    assert(spec_draw(s, vx + 64, vy, n) =~= spec_draw(s, vx, vy, n));
    assert(spec_draw(s, vx, vy + 32, n) =~= spec_draw(s, vx, vy, n));
}

/// Law: the clear-display instruction always succeeds and yields a buffer
/// of all-zero pixels, whatever the prior contents.
pub proof fn lemma_clear_display(s: CpuView, rnd: u8, keys: u16)
    ensures
        spec_execute(s, Instr::Cls, rnd, keys) is Ok,
        forall|p: int|
            0 <= p < 2048 ==> spec_execute(s, Instr::Cls, rnd, keys)->Ok_0.vram[p] == 0,
{
}

/// Law: a call followed immediately by a return restores the whole state:
/// the program counter stands exactly where it was before the call and
/// the stack depth (indeed the stack itself) is unchanged.
pub proof fn lemma_call_ret_round_trip(s: CpuView, nnn: u16, rnd: u8, keys: u16)
    requires
        s.wf(),
        s.stack.len() < MAX_STACK,
    ensures
        spec_execute(s, Instr::Call(nnn), rnd, keys) is Ok,
        ({
            let t1 = spec_execute(s, Instr::Call(nnn), rnd, keys)->Ok_0;
            &&& spec_execute(t1, Instr::Ret, rnd, keys) is Ok
            &&& spec_execute(t1, Instr::Ret, rnd, keys)->Ok_0 == s
        }),
{
    let t1 = spec_execute(s, Instr::Call(nnn), rnd, keys)->Ok_0;
    assert(t1.stack.len() == s.stack.len() + 1);
    assert(t1.stack.last() == s.pc);
    assert(t1.stack.drop_last() =~= s.stack);
    assert(spec_execute(t1, Instr::Ret, rnd, keys)->Ok_0 =~= s);
}

/// Law: only the random instruction consumes the random byte. For every
/// other instruction the transition is the same whatever byte the
/// generator produced.
pub proof fn lemma_execute_rnd_irrelevant(s: CpuView, instr: Instr, r1: u8, r2: u8, keys: u16)
    requires
        !(instr matches Instr::Rand(_, _)),
    ensures
        spec_execute(s, instr, r1, keys) == spec_execute(s, instr, r2, keys),
{
}

/// Law: one timer tick never increases a timer and never wraps it below
/// zero: a zero timer stays zero, a nonzero timer falls by exactly one.
pub proof fn lemma_timer_monotone(s: CpuView)
    ensures
        spec_tick(s).delay_timer <= s.delay_timer,
        spec_tick(s).sound_timer <= s.sound_timer,
        s.delay_timer == 0 ==> spec_tick(s).delay_timer == 0,
        s.sound_timer == 0 ==> spec_tick(s).sound_timer == 0,
        s.delay_timer > 0 ==> spec_tick(s).delay_timer == s.delay_timer - 1,
        s.sound_timer > 0 ==> spec_tick(s).sound_timer == s.sound_timer - 1,
{
}

} // verus!
