use vstd::prelude::*;

use crate::chip8::{
    advance, collides, drawn, flag, op_digit, op_kk, op_n, op_nnn, op_x, op_y, sprite_hit, step,
    timer_tick, valid_view, CpuView, SCREEN_CELLS, STACK_SIZE,
};

verus! {

/// A timer tick leaves a zero timer at zero and lowers any other by exactly one.
pub proof fn lemma_timer_tick(t: u8)
    ensures
        t == 0 ==> timer_tick(t) == 0,
        t > 0 ==> timer_tick(t) == t - 1,
{
}

/// `7xkk` adds `kk` to `Vx` modulo 256 and leaves every other register,
/// VF among them, as it was.
pub proof fn lemma_add_immediate(s: CpuView, x: u16, kk: u8, rnd: u8)
    requires
        valid_view(s),
        x < 16,
    ensures
        ({
            let op = (0x7000u16 | (x << 8u16) | kk as u16) as u16;
            &&& step(s, op, rnd) is Ok
            &&& step(s, op, rnd)->Ok_0.v[x as int] == (s.v[x as int] + kk) % 256
            &&& forall|j: int| 0 <= j < 16 && j != x ==> #[trigger] step(s, op, rnd)->Ok_0.v[j] == s.v[j]
            &&& step(s, op, rnd)->Ok_0.pc == advance(s.pc, 2)
        }),
{
    let op = (0x7000u16 | (x << 8u16) | kk as u16) as u16;
    assert(op_digit(op) == 7 && op != 0x00E0 && op != 0x00EE && op_x(op) == x && op_kk(op) == kk) by (bit_vector)
        requires
            op == (0x7000u16 | (x << 8u16) | kk as u16) as u16,
            x < 16,
    ;
}

/// `8xy4` with `x` other than F: VF is 1 exactly when `Vx + Vy` exceeds 255,
/// and `Vx` becomes the sum modulo 256.
pub proof fn lemma_add_with_carry(s: CpuView, x: u16, y: u16, rnd: u8)
    requires
        valid_view(s),
        x < 15,
        y < 16,
    ensures
        ({
            let op = (0x8004u16 | (x << 8u16) | (y << 4u16)) as u16;
            let sum = s.v[x as int] + s.v[y as int];
            &&& step(s, op, rnd) is Ok
            &&& (step(s, op, rnd)->Ok_0.v[15] == 1) == (sum > 255)
            &&& step(s, op, rnd)->Ok_0.v[15] <= 1
            &&& step(s, op, rnd)->Ok_0.v[x as int] == sum % 256
        }),
{
    let op = (0x8004u16 | (x << 8u16) | (y << 4u16)) as u16;
    assert(op_digit(op) == 8 && op != 0x00E0 && op != 0x00EE && op_x(op) == x && op_y(op) == y && op_n(op) == 4) by (bit_vector)
        requires
            op == (0x8004u16 | (x << 8u16) | (y << 4u16)) as u16,
            x < 16,
            y < 16,
    ;
}

/// `00E0` clears every cell of the frame buffer.
pub proof fn lemma_clear_screen(s: CpuView, rnd: u8)
    requires
        valid_view(s),
    ensures
        step(s, 0x00E0, rnd) is Ok,
        forall|k: int|
            0 <= k < SCREEN_CELLS ==> !#[trigger] step(s, 0x00E0, rnd)->Ok_0.frame_buffer[k],
{
}

/// A call followed at once by a return lands on the instruction after the
/// call, with the stack pointer as it was.
pub proof fn lemma_call_then_return(s: CpuView, nnn: u16, rnd1: u8, rnd2: u8)
    requires
        valid_view(s),
        nnn < 0x1000,
        s.sp < STACK_SIZE,
    ensures
        ({
            let op = (0x2000u16 | nnn) as u16;
            let called = step(s, op, rnd1)->Ok_0;
            &&& step(s, op, rnd1) is Ok
            &&& called.pc == nnn
            &&& step(called, 0x00EE, rnd2) is Ok
            &&& step(called, 0x00EE, rnd2)->Ok_0.pc == advance(s.pc, 2)
            &&& step(called, 0x00EE, rnd2)->Ok_0.sp == s.sp
        }),
{
    let op = (0x2000u16 | nnn) as u16;
    assert(op_digit(op) == 2 && op_nnn(op) == nnn && op != 0x00E0 && op != 0x00EE) by (bit_vector)
        requires
            op == (0x2000u16 | nnn) as u16,
            nnn < 0x1000,
    ;
}

/// Drawing a sprite twice at the same place, with neither coordinate held in
/// VF, onto cells that were clear where the sprite has bits: afterwards those
/// cells are clear again and VF is 1, provided the sprite has a bit at all.
pub proof fn lemma_draw_twice(s: CpuView, x: u16, y: u16, n: u16, rnd1: u8, rnd2: u8)
    requires
        valid_view(s),
        x < 15,
        y < 15,
        n < 16,
        forall|k: int|
            0 <= k < SCREEN_CELLS && #[trigger] sprite_hit(s.memory, s.i, s.v[x as int], s.v[y as int], n, k)
                ==> !s.frame_buffer[k],
        exists|k: int|
            0 <= k < SCREEN_CELLS && #[trigger] sprite_hit(s.memory, s.i, s.v[x as int], s.v[y as int], n, k),
    ensures
        ({
            let op = (0xD000u16 | (x << 8u16) | (y << 4u16) | n) as u16;
            let once = step(s, op, rnd1)->Ok_0;
            let twice = step(once, op, rnd2)->Ok_0;
            &&& step(s, op, rnd1) is Ok
            &&& step(once, op, rnd2) is Ok
            &&& twice.v[15] == 1
            &&& forall|k: int|
                0 <= k < SCREEN_CELLS && #[trigger] sprite_hit(s.memory, s.i, s.v[x as int], s.v[y as int], n, k)
                    ==> !twice.frame_buffer[k]
        }),
{
    let op = (0xD000u16 | (x << 8u16) | (y << 4u16) | n) as u16;
    assert(op_digit(op) == 0xD && op != 0x00E0 && op != 0x00EE && op_x(op) == x && op_y(op) == y && op_n(op) == n) by (bit_vector)
        requires
            op == (0xD000u16 | (x << 8u16) | (y << 4u16) | n) as u16,
            x < 16,
            y < 16,
            n < 16,
    ;
    let vx = s.v[x as int];
    let vy = s.v[y as int];
    let once = step(s, op, rnd1)->Ok_0;
    assert(once.v[x as int] == vx && once.v[y as int] == vy);
    let k0 = choose|k: int| 0 <= k < SCREEN_CELLS && #[trigger] sprite_hit(s.memory, s.i, vx, vy, n, k);
    assert(once.frame_buffer[k0]);
    assert(collides(once.frame_buffer, once.memory, once.i, vx, vy, n));
}

} // verus!
