use vstd::prelude::*;
use crate::gpu::{BLACK, WHITE, N_PIXELS, is_mono, screen_wf};
use crate::machine::{
    Machine, Fault, step, tick, flag, effects, draw_effect, alu_effect, misc_effect, sprite_hits, drawn_screen, collides, toggle, decode_spec,
    MAX_ADDR, SIZE, VF,
};

verus! {

/// The machine after `r`, then instruction `op`; a fault stops the run.
pub open spec fn then_step(r: Result<Machine, Fault>, op: u16, keys: Seq<bool>, rnd: u8) -> Result<Machine, Fault> {
    match r {
        Ok(m) => step(m, op, keys, rnd),
        Err(e) => Err(e),
    }
}

/// The machine after `k` timer ticks.
pub open spec fn ticks(m: Machine, k: nat) -> Machine
    decreases k,
{
    if k == 0 {
        m
    } else {
        tick(ticks(m, (k - 1) as nat))
    }
}

/// `6xnn` loads `nn` into `Vx`, whatever the register and the value.
pub proof fn law_load_immediate(m: Machine, x: u8, nn: u8, keys: Seq<bool>, rnd: u8)
    requires
        m.wf(),
        x < 16,
        m.pc + 2 <= MAX_ADDR,
    ensures
        step(m, (0x6000 + x * 256 + nn) as u16, keys, rnd) is Ok,
        step(m, (0x6000 + x * 256 + nn) as u16, keys, rnd)->Ok_0.v[x as int] == nn,
{
    lemma_step_load_immediate(m, x, nn, keys, rnd);
}

/// `8xy4` with `Vx = 0xFF` and `Vy = 0x01` wraps `Vx` to zero and sets the carry flag.
pub proof fn law_add_carry(m: Machine, x: u8, y: u8, keys: Seq<bool>, rnd: u8)
    requires
        m.wf(),
        x < 15,
        y < 16,
        m.v[x as int] == 0xFF,
        m.v[y as int] == 0x01,
        m.pc + 2 <= MAX_ADDR,
    ensures
        step(m, (0x8004 + x * 256 + y * 16) as u16, keys, rnd) is Ok,
        step(m, (0x8004 + x * 256 + y * 16) as u16, keys, rnd)->Ok_0.v[x as int] == 0x00,
        step(m, (0x8004 + x * 256 + y * 16) as u16, keys, rnd)->Ok_0.v[VF as int] == 1,
{
    let op = (0x8004 + x * 256 + y * 16) as u16;
    assert(decode_spec(op).a == 8 && decode_spec(op).x == x && decode_spec(op).y == y && decode_spec(op).n == 4);
    reveal(alu_effect);
}

/// `8xy5` with `Vx = 0x05` and `Vy = 0x0A` clears VF and wraps `Vx` to `0xFB`.
pub proof fn law_sub_borrow(m: Machine, x: u8, y: u8, keys: Seq<bool>, rnd: u8)
    requires
        m.wf(),
        x < 15,
        y < 15,
        m.v[x as int] == 0x05,
        m.v[y as int] == 0x0A,
        m.pc + 2 <= MAX_ADDR,
    ensures
        step(m, (0x8005 + x * 256 + y * 16) as u16, keys, rnd) is Ok,
        step(m, (0x8005 + x * 256 + y * 16) as u16, keys, rnd)->Ok_0.v[x as int] == 0xFB,
        step(m, (0x8005 + x * 256 + y * 16) as u16, keys, rnd)->Ok_0.v[VF as int] == 0,
{
    let op = (0x8005 + x * 256 + y * 16) as u16;
    assert(decode_spec(op).a == 8 && decode_spec(op).x == x && decode_spec(op).y == y && decode_spec(op).n == 5);
    reveal(alu_effect);
}

/// `6xnn` as one step of the machine.
proof fn lemma_step_load_immediate(m: Machine, x: u8, nn: u8, keys: Seq<bool>, rnd: u8)
    requires
        m.wf(),
        x < 16,
        m.pc + 2 <= MAX_ADDR,
    ensures
        step(m, (0x6000 + x * 256 + nn) as u16, keys, rnd) == Ok::<Machine, Fault>(
            Machine { pc: (m.pc + 2) as usize, ..m.set_v(x as int, nn) },
        ),
{
    let op = (0x6000 + x * 256 + nn) as u16;
    assert(decode_spec(op).a == 6 && decode_spec(op).x == x && decode_spec(op).nn == nn);
}

/// `Annn` as one step of the machine.
proof fn lemma_step_set_index(m: Machine, nnn: u16, keys: Seq<bool>, rnd: u8)
    requires
        m.wf(),
        nnn < 4096,
        m.pc + 2 <= MAX_ADDR,
    ensures
        step(m, (0xA000 + nnn) as u16, keys, rnd) == Ok::<Machine, Fault>(
            Machine { pc: (m.pc + 2) as usize, i: nnn as usize, ..m },
        ),
{
    let op = (0xA000 + nnn) as u16;
    assert(decode_spec(op).a == 10 && decode_spec(op).nnn == nnn);
}

/// `F355` as one step of the machine.
proof fn lemma_step_store(m: Machine, keys: Seq<bool>, rnd: u8)
    requires
        m.wf(),
        m.i + 3 <= MAX_ADDR,
        m.pc + 2 <= MAX_ADDR,
    ensures
        step(m, 0xF355, keys, rnd) == Ok::<Machine, Fault>(
            Machine {
                pc: (m.pc + 2) as usize,
                memory: Seq::new(SIZE as nat, |a: int| if m.i <= a <= m.i + 3 { m.v[a - m.i] } else { m.memory[a] }),
                ..m
            },
        ),
{
    assert(decode_spec(0xF355).a == 15 && decode_spec(0xF355).x == 3 && decode_spec(0xF355).nn == 0x55);
    reveal(misc_effect);
}

/// `F365` as one step of the machine.
proof fn lemma_step_restore(m: Machine, keys: Seq<bool>, rnd: u8)
    requires
        m.wf(),
        m.i + 3 <= MAX_ADDR,
        m.pc + 2 <= MAX_ADDR,
    ensures
        step(m, 0xF365, keys, rnd) == Ok::<Machine, Fault>(
            Machine {
                pc: (m.pc + 2) as usize,
                v: Seq::new(16, |r: int| if r <= 3 { m.memory[m.i + r] } else { m.v[r] }),
                ..m
            },
        ),
{
    assert(decode_spec(0xF365).a == 15 && decode_spec(0xF365).x == 3 && decode_spec(0xF365).nn == 0x65);
    reveal(misc_effect);
}

/// Storing `V0..=V3` at `nnn`, zeroing them and loading them back restores them exactly.
pub proof fn law_store_load_round_trip(m: Machine, nnn: u16, keys: Seq<bool>, rnd: u8)
    requires
        m.wf(),
        nnn + 3 <= MAX_ADDR,
        m.pc + 14 <= MAX_ADDR,
    ensures
        ({
            let r = then_step(then_step(then_step(then_step(then_step(then_step(
                step(m, (0xA000 + nnn) as u16, keys, rnd),
                0xF355, keys, rnd), 0x6000, keys, rnd), 0x6100, keys, rnd), 0x6200, keys, rnd),
                0x6300, keys, rnd), 0xF365, keys, rnd);
            r is Ok && r->Ok_0.v == m.v
        }),
{
    lemma_step_set_index(m, nnn, keys, rnd);
    let m1 = step(m, (0xA000 + nnn) as u16, keys, rnd)->Ok_0;
    lemma_step_store(m1, keys, rnd);
    let m2 = step(m1, 0xF355, keys, rnd)->Ok_0;
    lemma_step_load_immediate(m2, 0, 0, keys, rnd);
    let m3 = step(m2, 0x6000, keys, rnd)->Ok_0;
    lemma_step_load_immediate(m3, 1, 0, keys, rnd);
    let m4 = step(m3, 0x6100, keys, rnd)->Ok_0;
    lemma_step_load_immediate(m4, 2, 0, keys, rnd);
    let m5 = step(m4, 0x6200, keys, rnd)->Ok_0;
    lemma_step_load_immediate(m5, 3, 0, keys, rnd);
    let m6 = step(m5, 0x6300, keys, rnd)->Ok_0;
    assert(m6.i == nnn && m6.memory == m2.memory);
    lemma_step_restore(m6, keys, rnd);
    let m7 = step(m6, 0xF365, keys, rnd)->Ok_0;
    assert(m7.v =~= m.v);
}

/// Toggling a monochrome pixel twice gives it back.
proof fn lemma_toggle_twice(c: u32)
    requires
        is_mono(c),
    ensures
        toggle(toggle(c)) == c,
        toggle(c) == WHITE <==> c == BLACK,
{
}

/// `Dxyn` as one step of the machine.
proof fn lemma_step_draw(m: Machine, x: u8, y: u8, n: u8, keys: Seq<bool>, rnd: u8)
    requires
        m.wf(),
        x < 16,
        y < 16,
        n < 16,
        m.i + n <= SIZE,
        m.pc + 2 <= MAX_ADDR,
    ensures
        ({
            let v0 = m.v.update(VF as int, 0);
            let vx = v0[x as int] as int;
            let vy = v0[y as int] as int;
            step(m, (0xD000 + x * 256 + y * 16 + n) as u16, keys, rnd) == Ok::<Machine, Fault>(
                Machine {
                    pc: (m.pc + 2) as usize,
                    screen: drawn_screen(m.screen, m.memory, m.i as int, n as int, vx, vy),
                    v: v0.update(VF as int, flag(collides(m.screen, m.memory, m.i as int, n as int, vx, vy))),
                    ..m
                },
            )
        }),
{
    let op = (0xD000 + x * 256 + y * 16 + n) as u16;
    assert(decode_spec(op).a == 13 && decode_spec(op).x == x && decode_spec(op).y == y && decode_spec(op).n == n);
    assert(effects(m, op, keys, rnd) == draw_effect(m, x as int, y as int, n as int));
    reveal(draw_effect);
}

/// XOR-drawing a sprite twice gives the display back, and the second draw collides
/// exactly where the first turned a pixel on.
proof fn lemma_draw_involution(s: Seq<u32>, mem: Seq<u8>, i: int, n: int, vx: int, vy: int)
    requires
        screen_wf(s),
    ensures
        screen_wf(drawn_screen(s, mem, i, n, vx, vy)),
        drawn_screen(drawn_screen(s, mem, i, n, vx, vy), mem, i, n, vx, vy) == s,
        collides(drawn_screen(s, mem, i, n, vx, vy), mem, i, n, vx, vy) <==> exists|p: int|
            0 <= p < N_PIXELS && #[trigger] sprite_hits(mem, i, n, vx, vy, p) && s[p] == BLACK,
{
    reveal(drawn_screen);
    reveal(collides);
    let s1 = drawn_screen(s, mem, i, n, vx, vy);
    let s2 = drawn_screen(s1, mem, i, n, vx, vy);
    assert forall|p: int| 0 <= p < N_PIXELS implies #[trigger] s2[p] == s[p] && is_mono(s1[p])
        && (sprite_hits(mem, i, n, vx, vy, p) ==> (s1[p] == WHITE <==> s[p] == BLACK)) by {
        lemma_toggle_twice(s[p]);
    }
    assert(s2 =~= s);
    if collides(s1, mem, i, n, vx, vy) {
        let p = choose|p: int| 0 <= p < s1.len() && #[trigger] sprite_hits(mem, i, n, vx, vy, p) && s1[p] == WHITE;
        assert(s2[p] == s[p]);
    }
    if exists|p: int| 0 <= p < N_PIXELS && #[trigger] sprite_hits(mem, i, n, vx, vy, p) && s[p] == BLACK {
        let p = choose|p: int| 0 <= p < N_PIXELS && #[trigger] sprite_hits(mem, i, n, vx, vy, p) && s[p] == BLACK;
        assert(s2[p] == s[p]);
        assert(s1[p] == WHITE);
    }
}

/// Drawing the same sprite at the same place twice in a row gives back the display, and
/// the second draw reports a collision exactly when the first turned some pixel on.
pub proof fn law_draw_twice(m: Machine, x: u8, y: u8, n: u8, keys: Seq<bool>, rnd: u8)
    requires
        m.wf(),
        x < 16,
        y < 16,
        n < 16,
        m.i + n <= SIZE,
        m.pc + 4 <= MAX_ADDR,
    ensures
        ({
            let op = (0xD000 + x * 256 + y * 16 + n) as u16;
            let r1 = step(m, op, keys, rnd);
            let r2 = then_step(r1, op, keys, rnd);
            let vx = m.v.update(VF as int, 0)[x as int] as int;
            let vy = m.v.update(VF as int, 0)[y as int] as int;
            &&& r2 is Ok
            &&& r2->Ok_0.screen == m.screen
            &&& (r2->Ok_0.v[VF as int] == 1 <==> exists|p: int|
                0 <= p < N_PIXELS && #[trigger] sprite_hits(m.memory, m.i as int, n as int, vx, vy, p)
                    && m.screen[p] == BLACK)
        }),
{
    let op = (0xD000 + x * 256 + y * 16 + n) as u16;
    let vx = m.v.update(VF as int, 0)[x as int] as int;
    let vy = m.v.update(VF as int, 0)[y as int] as int;
    lemma_step_draw(m, x, y, n, keys, rnd);
    lemma_draw_involution(m.screen, m.memory, m.i as int, n as int, vx, vy);
    let m1 = step(m, op, keys, rnd)->Ok_0;
    assert(m1.v.update(VF as int, 0) =~= m.v.update(VF as int, 0));
    lemma_step_draw(m1, x, y, n, keys, rnd);
}

/// A call followed by a return resumes right after the call, with the stack as before.
pub proof fn law_call_return(m: Machine, nnn: u16, keys: Seq<bool>, rnd: u8)
    requires
        m.wf(),
        nnn < 4096,
        m.sp < 16,
        m.pc + 2 <= MAX_ADDR,
    ensures
        ({
            let r = then_step(step(m, (0x2000 + nnn) as u16, keys, rnd), 0x00EE, keys, rnd);
            &&& r is Ok
            &&& r->Ok_0.pc == m.pc + 2
            &&& r->Ok_0.sp == m.sp
        }),
{
}

/// Each tick takes one off the delay timer until it reaches zero, where it stays.
pub proof fn law_ticks(m: Machine, k: nat)
    ensures
        ticks(m, k).delay == if k >= m.delay { 0 } else { m.delay - k },
        ticks(m, k).sound == if k >= m.sound { 0 } else { m.sound - k },
    decreases k,
{
    if k > 0 {
        law_ticks(m, (k - 1) as nat);
    }
}

/// After `Fx15` with `Vx = 5`, five ticks bring the delay timer to zero and a sixth keeps it there.
pub proof fn law_delay_countdown(m: Machine, x: u8, keys: Seq<bool>, rnd: u8)
    requires
        m.wf(),
        x < 16,
        m.v[x as int] == 5,
        m.pc + 2 <= MAX_ADDR,
    ensures
        ({
            let r = step(m, (0xF015 + x * 256) as u16, keys, rnd);
            &&& r is Ok
            &&& r->Ok_0.delay == 5
            &&& ticks(r->Ok_0, 5).delay == 0
            &&& ticks(r->Ok_0, 6).delay == 0
        }),
{
    let op = (0xF015 + x * 256) as u16;
    assert(decode_spec(op).a == 15 && decode_spec(op).x == x && decode_spec(op).nn == 0x15);
    reveal(misc_effect);
    let m1 = step(m, op, keys, rnd)->Ok_0;
    law_ticks(m1, 5);
    law_ticks(m1, 6);
}

/// `3xnn` skips the next instruction exactly when `Vx == nn`.
pub proof fn law_skip_equal(m: Machine, x: u8, nn: u8, keys: Seq<bool>, rnd: u8)
    requires
        m.wf(),
        x < 16,
        m.pc + 4 <= MAX_ADDR,
    ensures
        step(m, (0x3000 + x * 256 + nn) as u16, keys, rnd) is Ok,
        step(m, (0x3000 + x * 256 + nn) as u16, keys, rnd)->Ok_0.pc == if m.v[x as int] == nn { m.pc + 4 } else { m.pc + 2 },
{
    let op = (0x3000 + x * 256 + nn) as u16;
    assert(decode_spec(op).a == 3 && decode_spec(op).x == x && decode_spec(op).nn == nn);
}

} // verus!
