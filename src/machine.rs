use vstd::prelude::*;
use crate::gpu::{BLACK, WHITE, W_CHIP8, H_CHIP8, screen_wf, blank_screen};

verus! {

/// Size of the address space, in bytes.
pub const SIZE: usize = 4096;
/// Address at which programs are loaded.
pub const BEGIN_ADDR: usize = 512;
/// Highest valid address.
pub const MAX_ADDR: usize = 4095;
/// Number of general purpose registers V0..VF.
pub const N_REGS: usize = 16;
/// Depth of the call stack.
pub const STACK_DEPTH: usize = 16;
/// Number of logical keys.
pub const N_KEYS: usize = 16;
/// Index of the flag register VF.
pub const VF: usize = 15;

/// A fatal fault that stops the machine.
#[derive(PartialEq, Eq, Structural, Debug, Clone, Copy)]
pub enum Fault {
    /// The instruction word has no defined behavior (this includes `0nnn`).
    Unsupported(u16),
    /// `2nnn` with all sixteen call levels in use.
    StackOverflow,
    /// `00EE` with an empty call stack.
    StackUnderflow,
    /// The program counter or an `I`-relative access left the address space.
    AddressOutOfRange,
}

/// How the program counter moves after an instruction.
#[derive(PartialEq, Eq, Structural, Debug, Clone, Copy)]
pub enum OpCodeNext {
    /// PC += 2.
    Next,
    /// PC += 4.
    Skip,
    /// PC := address.
    Jump(usize),
    /// PC unchanged: the machine waits for a key and fetches the same instruction again.
    Wait,
}

impl OpCodeNext {
    /// `Skip` when `condition` holds, else `Next`.
    pub fn skip_if(condition: bool) -> (r: OpCodeNext)
        ensures
            r == (if condition { OpCodeNext::Skip } else { OpCodeNext::Next }),
    {
        if condition {
            OpCodeNext::Skip
        } else {
            OpCodeNext::Next
        }
    }
}

/// The operand fields of an instruction word.
#[derive(PartialEq, Eq, Structural, Debug, Clone, Copy)]
pub struct Decoded {
    /// Bits 12-15.
    pub a: u8,
    /// Bits 8-11: the register index `x`.
    pub x: u8,
    /// Bits 4-7: the register index `y`.
    pub y: u8,
    /// Bits 0-3: the nibble `n`.
    pub n: u8,
    /// The low 12 bits.
    pub nnn: u16,
    /// The low 8 bits.
    pub nn: u8,
}

pub open spec fn decode_spec(op: u16) -> Decoded {
    Decoded {
        a: (op / 4096) as u8,
        x: ((op / 256) % 16) as u8,
        y: ((op / 16) % 16) as u8,
        n: (op % 16) as u8,
        nnn: (op % 4096) as u16,
        nn: (op % 256) as u8,
    }
}

/// Splits an instruction word into its nibbles and operand fields.
pub fn decode(op: u16) -> (r: Decoded)
    ensures
        r == decode_spec(op),
        r.a < 16,
        r.x < 16,
        r.y < 16,
        r.n < 16,
        r.nnn < 4096,
{
    Decoded {
        a: (op / 4096) as u8,
        x: ((op / 256) % 16) as u8,
        y: ((op / 16) % 16) as u8,
        n: (op % 16) as u8,
        nnn: op % 4096,
        nn: (op % 256) as u8,
    }
}

/// The whole state of the machine, as mathematical values.
pub struct Machine {
    pub memory: Seq<u8>,
    pub v: Seq<u8>,
    pub i: usize,
    pub stack: Seq<usize>,
    pub sp: usize,
    pub pc: usize,
    pub delay: u8,
    pub sound: u8,
    pub screen: Seq<u32>,
}

impl Machine {
    pub open spec fn wf(self) -> bool {
        &&& self.memory.len() == SIZE
        &&& self.v.len() == N_REGS
        &&& self.stack.len() == STACK_DEPTH
        &&& self.sp <= STACK_DEPTH
        &&& self.pc <= MAX_ADDR
        &&& self.i <= MAX_ADDR
        &&& screen_wf(self.screen)
    }

    pub open spec fn set_v(self, x: int, val: u8) -> Machine {
        Machine { v: self.v.update(x, val), ..self }
    }
}

/// The instruction word at `pc`, big-endian.
pub open spec fn opcode_at(m: Machine, pc: int) -> u16 {
    (m.memory[pc] as int * 256 + m.memory[pc + 1] as int) as u16
}

/// Whether logical key `k` is down; a value above 0xF names no key.
pub open spec fn key_down(keys: Seq<bool>, k: int) -> bool {
    0 <= k < keys.len() && keys[k]
}

/// The lowest pressed key at or above `k`, or `N_KEYS` when there is none.
pub open spec fn first_pressed(keys: Seq<bool>, k: int) -> int
    decreases N_KEYS - k,
{
    if k >= N_KEYS {
        N_KEYS as int
    } else if key_down(keys, k) {
        k
    } else {
        first_pressed(keys, k + 1)
    }
}

/// Bit `k` of a sprite row, counting from the most significant bit.
pub open spec fn sprite_bit(row: u8, k: int) -> bool {
    ((row >> ((7 - k) as u8)) & 1u8) == 1u8
}

/// The sprite row of pixel `(px, py)` when the sprite's origin is `(vx, vy)`.
pub open spec fn row_of(vy: int, py: int) -> int {
    (py - vy) % (H_CHIP8 as int)
}

/// The sprite column of pixel `(px, py)` when the sprite's origin is `(vx, vy)`.
pub open spec fn col_of(vx: int, px: int) -> int {
    (px - vx) % (W_CHIP8 as int)
}

/// Whether the `n`-row sprite at `mem[i..]` drawn at `(vx, vy)` has a set bit on pixel `p`.
pub open spec fn sprite_hits(mem: Seq<u8>, i: int, n: int, vx: int, vy: int, p: int) -> bool {
    let row = row_of(vy, p / (W_CHIP8 as int));
    let col = col_of(vx, p % (W_CHIP8 as int));
    row < n && col < 8 && sprite_bit(mem[i + row], col)
}

/// A pixel toggled between background and foreground.
pub open spec fn toggle(c: u32) -> u32 {
    if c == WHITE { BLACK } else { WHITE }
}

/// The framebuffer after XOR-drawing the sprite.
#[verifier::opaque]
pub open spec fn drawn_screen(screen: Seq<u32>, mem: Seq<u8>, i: int, n: int, vx: int, vy: int) -> Seq<u32> {
    Seq::new(screen.len(), |p: int| if sprite_hits(mem, i, n, vx, vy, p) { toggle(screen[p]) } else { screen[p] })
}

/// Whether the sprite turns some foreground pixel to background.
#[verifier::opaque]
pub open spec fn collides(screen: Seq<u32>, mem: Seq<u8>, i: int, n: int, vx: int, vy: int) -> bool {
    exists|p: int| 0 <= p < screen.len() && #[trigger] sprite_hits(mem, i, n, vx, vy, p) && screen[p] == WHITE
}

/// `Dxyn`: VF is cleared, then the sprite is drawn at `(Vx, Vy)` read after that clear.
#[verifier::opaque]
pub open spec fn draw_effect(m: Machine, x: int, y: int, n: int) -> Result<(Machine, OpCodeNext), Fault> {
    if m.i + n > SIZE {
        Err(Fault::AddressOutOfRange)
    } else {
        let v0 = m.v.update(VF as int, 0);
        let vx = v0[x] as int;
        let vy = v0[y] as int;
        let hit = collides(m.screen, m.memory, m.i as int, n, vx, vy);
        Ok((
            Machine {
                screen: drawn_screen(m.screen, m.memory, m.i as int, n, vx, vy),
                v: v0.update(VF as int, if hit { 1u8 } else { 0u8 }),
                ..m
            },
            OpCodeNext::Next,
        ))
    }
}

pub open spec fn flag(b: bool) -> u8 {
    if b { 1 } else { 0 }
}

/// `8xyk`: the register arithmetic and logic instructions.
#[verifier::opaque]
pub open spec fn alu_effect(m: Machine, op: u16, x: int, y: int, k: int) -> Result<(Machine, OpCodeNext), Fault> {
    let vx = m.v[x];
    let vy = m.v[y];
    if k == 0 {
        Ok((m.set_v(x, vy), OpCodeNext::Next))
    } else if k == 1 {
        Ok((m.set_v(x, vx | vy), OpCodeNext::Next))
    } else if k == 2 {
        Ok((m.set_v(x, vx & vy), OpCodeNext::Next))
    } else if k == 3 {
        Ok((m.set_v(x, vx ^ vy), OpCodeNext::Next))
    } else if k == 4 {
        let sum = vx as int + vy as int;
        Ok((m.set_v(x, (sum % 256) as u8).set_v(VF as int, flag(sum > 255)), OpCodeNext::Next))
    } else if k == 5 {
        let m1 = m.set_v(VF as int, flag(vx > vy));
        Ok((m1.set_v(x, ((m1.v[x] - m1.v[y] + 256) % 256) as u8), OpCodeNext::Next))
    } else if k == 6 {
        let m1 = m.set_v(VF as int, vx % 2);
        Ok((m1.set_v(x, m1.v[x] / 2), OpCodeNext::Next))
    } else if k == 7 {
        let m1 = m.set_v(VF as int, flag(vy > vx));
        Ok((m1.set_v(x, ((m1.v[y] - m1.v[x] + 256) % 256) as u8), OpCodeNext::Next))
    } else if k == 14 {
        let m1 = m.set_v(VF as int, vx / 128);
        Ok((m1.set_v(x, ((m1.v[x] * 2) % 256) as u8), OpCodeNext::Next))
    } else {
        Err(Fault::Unsupported(op))
    }
}

/// `Fxkk`: timers, key wait, index register and memory transfers.
#[verifier::opaque]
pub open spec fn misc_effect(m: Machine, op: u16, keys: Seq<bool>, x: int, kk: int) -> Result<(Machine, OpCodeNext), Fault> {
    let vx = m.v[x];
    if kk == 0x07 {
        Ok((m.set_v(x, m.delay), OpCodeNext::Next))
    } else if kk == 0x0A {
        let k = first_pressed(keys, 0);
        if k < N_KEYS {
            Ok((m.set_v(x, k as u8), OpCodeNext::Next))
        } else {
            Ok((m, OpCodeNext::Wait))
        }
    } else if kk == 0x15 {
        Ok((Machine { delay: vx, ..m }, OpCodeNext::Next))
    } else if kk == 0x18 {
        Ok((Machine { sound: vx, ..m }, OpCodeNext::Next))
    } else if kk == 0x1E {
        let s = m.i + vx;
        Ok((Machine { i: (s % SIZE as int) as usize, ..m }.set_v(VF as int, flag(s > MAX_ADDR)), OpCodeNext::Next))
    } else if kk == 0x29 {
        Ok((Machine { i: ((vx % 16) * 5) as usize, ..m }, OpCodeNext::Next))
    } else if kk == 0x33 {
        if m.i + 2 > MAX_ADDR {
            Err(Fault::AddressOutOfRange)
        } else {
            let mem = m.memory.update(m.i as int, vx / 100).update(m.i + 1, (vx % 100) / 10).update(m.i + 2, vx % 10);
            Ok((Machine { memory: mem, ..m }, OpCodeNext::Next))
        }
    } else if kk == 0x55 {
        if m.i + x > MAX_ADDR {
            Err(Fault::AddressOutOfRange)
        } else {
            let mem = Seq::new(SIZE as nat, |a: int| if m.i <= a <= m.i + x { m.v[a - m.i] } else { m.memory[a] });
            Ok((Machine { memory: mem, ..m }, OpCodeNext::Next))
        }
    } else if kk == 0x65 {
        if m.i + x > MAX_ADDR {
            Err(Fault::AddressOutOfRange)
        } else {
            let regs = Seq::new(N_REGS as nat, |r: int| if r <= x { m.memory[m.i + r] } else { m.v[r] });
            Ok((Machine { v: regs, ..m }, OpCodeNext::Next))
        }
    } else {
        Err(Fault::Unsupported(op))
    }
}

/// Everything an instruction does but move the program counter.
/// `rnd` is the value drawn for `Cxnn`.
pub open spec fn effects(m: Machine, op: u16, keys: Seq<bool>, rnd: u8) -> Result<(Machine, OpCodeNext), Fault> {
    let d = decode_spec(op);
    let x = d.x as int;
    let y = d.y as int;
    let vx = m.v[x];
    let vy = m.v[y];
    if d.a == 0 {
        if op == 0x00E0 {
            Ok((Machine { screen: blank_screen(), ..m }, OpCodeNext::Next))
        } else if op == 0x00EE {
            if m.sp == 0 {
                Err(Fault::StackUnderflow)
            } else {
                Ok((Machine { sp: (m.sp - 1) as usize, ..m }, OpCodeNext::Jump(m.stack[m.sp - 1])))
            }
        } else {
            Err(Fault::Unsupported(op))
        }
    } else if d.a == 1 {
        Ok((m, OpCodeNext::Jump(d.nnn as usize)))
    } else if d.a == 2 {
        if m.sp >= STACK_DEPTH {
            Err(Fault::StackOverflow)
        } else {
            Ok((
                Machine {
                    stack: m.stack.update(m.sp as int, (m.pc + 2) as usize),
                    sp: (m.sp + 1) as usize,
                    ..m
                },
                OpCodeNext::Jump(d.nnn as usize),
            ))
        }
    } else if d.a == 3 {
        Ok((m, if vx == d.nn { OpCodeNext::Skip } else { OpCodeNext::Next }))
    } else if d.a == 4 {
        Ok((m, if vx != d.nn { OpCodeNext::Skip } else { OpCodeNext::Next }))
    } else if d.a == 5 {
        if d.n == 0 {
            Ok((m, if vx == vy { OpCodeNext::Skip } else { OpCodeNext::Next }))
        } else {
            Err(Fault::Unsupported(op))
        }
    } else if d.a == 6 {
        Ok((m.set_v(x, d.nn), OpCodeNext::Next))
    } else if d.a == 7 {
        Ok((m.set_v(x, ((vx + d.nn) % 256) as u8), OpCodeNext::Next))
    } else if d.a == 8 {
        alu_effect(m, op, x, y, d.n as int)
    } else if d.a == 9 {
        if d.n == 0 {
            Ok((m, if vx != vy { OpCodeNext::Skip } else { OpCodeNext::Next }))
        } else {
            Err(Fault::Unsupported(op))
        }
    } else if d.a == 10 {
        Ok((Machine { i: d.nnn as usize, ..m }, OpCodeNext::Next))
    } else if d.a == 11 {
        Ok((m, OpCodeNext::Jump((d.nnn + m.v[0]) as usize)))
    } else if d.a == 12 {
        Ok((m.set_v(x, rnd), OpCodeNext::Next))
    } else if d.a == 13 {
        draw_effect(m, x, y, d.n as int)
    } else if d.a == 14 {
        if d.nn == 0x9E {
            Ok((m, if key_down(keys, vx as int) { OpCodeNext::Skip } else { OpCodeNext::Next }))
        } else if d.nn == 0xA1 {
            Ok((m, if !key_down(keys, vx as int) { OpCodeNext::Skip } else { OpCodeNext::Next }))
        } else {
            Err(Fault::Unsupported(op))
        }
    } else {
        misc_effect(m, op, keys, x, d.nn as int)
    }
}

/// The address the program counter moves to.
pub open spec fn next_pc(pc: int, next: OpCodeNext) -> int {
    match next {
        OpCodeNext::Next => pc + 2,
        OpCodeNext::Skip => pc + 4,
        OpCodeNext::Jump(a) => a as int,
        OpCodeNext::Wait => pc,
    }
}

/// One instruction applied to the machine: its effects, then the move of the
/// program counter, which must stay inside the address space.
pub open spec fn step(m: Machine, op: u16, keys: Seq<bool>, rnd: u8) -> Result<Machine, Fault> {
    match effects(m, op, keys, rnd) {
        Err(e) => Err(e),
        Ok((m1, next)) => {
            let t = next_pc(m.pc as int, next);
            if t > MAX_ADDR {
                Err(Fault::AddressOutOfRange)
            } else {
                Ok(Machine { pc: t as usize, ..m1 })
            }
        },
    }
}

/// `nn` of a `Cxnn` word: the bound of the value drawn.
pub open spec fn random_bound(op: u16) -> u8 {
    decode_spec(op).nn
}

/// One timer tick: each nonzero timer goes down by one.
pub open spec fn tick(m: Machine) -> Machine {
    Machine {
        delay: if m.delay > 0 { (m.delay - 1) as u8 } else { 0 },
        sound: if m.sound > 0 { (m.sound - 1) as u8 } else { 0 },
        ..m
    }
}

} // verus!
