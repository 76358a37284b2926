use vstd::prelude::*;
use rand::Rng;
use crate::font::{font_set, font_spec, FONT_LEN};
use crate::gpu::{GPU, BLACK, WHITE, W_CHIP8, H_CHIP8, N_PIXELS, blank_screen, pixel_index};
use crate::machine::{
    Fault, OpCodeNext, Machine, decode, effects, alu_effect, misc_effect, draw_effect, step, tick,
    opcode_at, first_pressed, random_bound, sprite_hits, row_of, col_of, toggle, drawn_screen,
    collides, SIZE, BEGIN_ADDR, MAX_ADDR, N_REGS, STACK_DEPTH, N_KEYS, VF,
};
use crate::rom::Rom;

verus! {

/// Relies on rand::thread_rng and Rng::gen_range: a value drawn from `0..=bound`,
/// a range that is never empty.
#[verifier::external_body]
fn random_up_to(bound: u8) -> (r: u8)
    ensures
        r <= bound,
{
    rand::thread_rng().gen_range(0..=bound)
}

/// How an instruction group's spec result and the observed result agree.
pub open spec fn effect_done(
    expected: Result<(Machine, OpCodeNext), Fault>,
    r: Result<OpCodeNext, Fault>,
    after: Machine,
) -> bool {
    match expected {
        Ok((m1, next)) => r == Ok::<OpCodeNext, Fault>(next) && after == m1,
        Err(e) => r == Err::<OpCodeNext, Fault>(e),
    }
}

/// How one instruction's spec result and the observed result agree.
pub open spec fn outcome(m: Machine, op: u16, keys: Seq<bool>, rnd: u8, r: Result<(), Fault>, after: Machine) -> bool {
    match step(m, op, keys, rnd) {
        Ok(m1) => r == Ok::<(), Fault>(()) && after == m1,
        Err(e) => r == Err::<(), Fault>(e),
    }
}

/// The state of a freshly created machine.
pub open spec fn initial_machine() -> Machine {
    Machine {
        memory: Seq::new(SIZE as nat, |a: int| 0u8),
        v: Seq::new(N_REGS as nat, |r: int| 0u8),
        i: 0,
        stack: Seq::new(STACK_DEPTH as nat, |k: int| 0usize),
        sp: 0,
        pc: BEGIN_ADDR,
        delay: 0,
        sound: 0,
        screen: blank_screen(),
    }
}

/// The machine after loading the font and the program image `prog`, and clearing the display.
/// Bytes that would land past the address space are dropped.
pub open spec fn loaded(m: Machine, prog: Seq<u8>) -> Machine {
    Machine {
        memory: Seq::new(
            SIZE as nat,
            |a: int|
                if a < FONT_LEN {
                    font_spec()[a]
                } else if BEGIN_ADDR <= a < BEGIN_ADDR + prog.len() {
                    prog[a - BEGIN_ADDR]
                } else {
                    m.memory[a]
                },
        ),
        screen: blank_screen(),
        ..m
    }
}

/// Whether sprite pixel `p` has been visited once rows below `row`, and the first `bit`
/// bits of row `row`, are drawn.
pub open spec fn processed(vx: int, vy: int, p: int, row: int, bit: int) -> bool {
    let r = row_of(vy, p / (W_CHIP8 as int));
    let c = col_of(vx, p % (W_CHIP8 as int));
    r < row || (r == row && c < bit)
}

/// Wrapping an offset into `[0, m)` and taking it back again are inverse.
proof fn lemma_wrap(v: int, k: int, q: int, m: int)
    requires
        m == 32 || m == 64,
        0 <= v,
        0 <= k < m,
        0 <= q < m,
    ensures
        ((q - v) % m == k) <==> (q == (v + k) % m),
{
}

/// The pixel a sprite bit lands on is found again by `row_of` and `col_of`, and no other pixel is.
proof fn lemma_sprite_pixel(vx: int, vy: int, row: int, bit: int, p: int)
    requires
        0 <= vx,
        0 <= vy,
        0 <= row < H_CHIP8,
        0 <= bit < 8,
        0 <= p < N_PIXELS,
    ensures
        (row_of(vy, p / (W_CHIP8 as int)) == row && col_of(vx, p % (W_CHIP8 as int)) == bit)
            <==> p == pixel_index((vx + bit) % (W_CHIP8 as int), (vy + row) % (H_CHIP8 as int)),
{
    let px = p % 64;
    let py = p / 64;
    assert(0 <= py < 32);
    lemma_wrap(vx, bit, px, 64);
    lemma_wrap(vy, row, py, 32);
}

/// The registers, memory, timers and display of the machine.
pub struct CPU {
    memory: Vec<u8>,
    v: Vec<u8>,
    i: usize,
    stack: Vec<usize>,
    sp: usize,
    pc: usize,
    count_game: u8,
    count_sound: u8,
    gpu: GPU,
}

impl View for CPU {
    type V = Machine;

    closed spec fn view(&self) -> Machine {
        Machine {
            memory: self.memory@,
            v: self.v@,
            i: self.i,
            stack: self.stack@,
            sp: self.sp,
            pc: self.pc,
            delay: self.count_game,
            sound: self.count_sound,
            screen: self.gpu@,
        }
    }
}

impl CPU {
    pub open spec fn wf(&self) -> bool {
        self@.wf()
    }

    /// A machine with zeroed memory and registers, PC at 0x200 and a blank display.
    pub fn new() -> (r: CPU)
        ensures
            r.wf(),
            r@ == initial_machine(),
    {
        let memory: Vec<u8> = vec![0u8; SIZE];
        let v: Vec<u8> = vec![0u8; N_REGS];
        let stack: Vec<usize> = vec![0usize; STACK_DEPTH];
        let r = CPU {
            memory,
            v,
            i: 0,
            stack,
            sp: 0,
            count_game: 0,
            count_sound: 0,
            pc: BEGIN_ADDR,
            gpu: GPU::new(),
        };
        assert(r@.memory =~= initial_machine().memory);
        assert(r@.v =~= initial_machine().v);
        assert(r@.stack =~= initial_machine().stack);
        r
    }

    /// The display the machine draws on.
    pub fn gpu(&self) -> (r: &GPU)
        ensures
            r@ == self@.screen,
    {
        &self.gpu
    }

    /// Register `Vx`.
    pub fn v(&self, x: usize) -> (r: u8)
        requires
            self.wf(),
            x < N_REGS,
        ensures
            r == self@.v[x as int],
    {
        self.v[x]
    }

    /// The byte at address `addr`.
    pub fn memory_at(&self, addr: usize) -> (r: u8)
        requires
            self.wf(),
            addr < SIZE,
        ensures
            r == self@.memory[addr as int],
    {
        self.memory[addr]
    }

    /// The program counter.
    pub fn pc(&self) -> (r: usize)
        ensures
            r == self@.pc,
    {
        self.pc
    }

    /// The stack pointer: the number of pending calls.
    pub fn sp(&self) -> (r: usize)
        ensures
            r == self@.sp,
    {
        self.sp
    }

    /// The index register `I`.
    pub fn index(&self) -> (r: usize)
        ensures
            r == self@.i,
    {
        self.i
    }

    /// The delay timer.
    pub fn delay_timer(&self) -> (r: u8)
        ensures
            r == self@.delay,
    {
        self.count_game
    }

    /// The sound timer.
    pub fn sound_timer(&self) -> (r: u8)
        ensures
            r == self@.sound,
    {
        self.count_sound
    }

    /// One timer tick: each timer that is not zero goes down by one.
    pub fn step_count(&mut self)
        requires
            old(self).wf(),
        ensures
            final(self).wf(),
            final(self)@ == tick(old(self)@),
    {
        if self.count_game > 0 {
            self.count_game -= 1;
        }
        if self.count_sound > 0 {
            self.count_sound -= 1;
        }
    }

    /// Writes the font at address 0 and the program image at 0x200, and clears the display.
    pub fn load(&mut self, rom: &Rom)
        requires
            old(self).wf(),
        ensures
            final(self).wf(),
            final(self)@ == loaded(old(self)@, rom.data@),
    {
        let ghost m0 = self@;
        let font = font_set();
        let mut k: usize = 0;
        while k < FONT_LEN
            invariant
                k <= FONT_LEN,
                font@ == font_spec(),
                m0.wf(),
                self@ == (Machine { memory: self.memory@, ..m0 }),
                self.memory@.len() == SIZE,
                forall|a: int| 0 <= a < k ==> self.memory@[a] == font_spec()[a],
                forall|a: int| k <= a < SIZE ==> self.memory@[a] == m0.memory[a],
            decreases FONT_LEN - k,
        {
            self.memory.set(k, font[k]);
            k = k + 1;
        }
        let mut j: usize = 0;
        while j < rom.data.len() && BEGIN_ADDR + j < SIZE
            invariant
                j <= rom.data@.len(),
                BEGIN_ADDR + j <= SIZE,
                m0.wf(),
                self@ == (Machine { memory: self.memory@, ..m0 }),
                self.memory@.len() == SIZE,
                forall|a: int| 0 <= a < FONT_LEN ==> self.memory@[a] == font_spec()[a],
                forall|a: int| BEGIN_ADDR <= a < BEGIN_ADDR + j ==> self.memory@[a] == rom.data@[a - BEGIN_ADDR],
                forall|a: int| FONT_LEN <= a < SIZE && !(BEGIN_ADDR <= a < BEGIN_ADDR + j) ==> self.memory@[a] == m0.memory[a],
            decreases rom.data@.len() - j,
        {
            self.memory.set(BEGIN_ADDR + j, rom.data[j]);
            j = j + 1;
        }
        self.gpu.clear_screen();
        assert(self@.memory =~= loaded(m0, rom.data@).memory);
    }

    /// The instruction word at the program counter, or a fault when it would be read
    /// past the address space.
    pub fn get_opcode(&self) -> (r: Result<u16, Fault>)
        requires
            self.wf(),
        ensures
            r == (if self@.pc + 1 <= MAX_ADDR {
                Ok(opcode_at(self@, self@.pc as int))
            } else {
                Err(Fault::AddressOutOfRange)
            }),
    {
        if self.pc + 1 > MAX_ADDR {
            return Err(Fault::AddressOutOfRange);
        }
        Ok((self.memory[self.pc] as u16) * 256 + (self.memory[self.pc + 1] as u16))
    }

    /// `Dxyn`: clears VF, XOR-draws the `n` rows at `memory[I..]` at `(Vx, Vy)` with
    /// wrapping coordinates, and sets VF when a foreground pixel was turned off.
    fn draw_sprite(&mut self, x: usize, y: usize, n: usize) -> (r: Result<OpCodeNext, Fault>)
        requires
            old(self).wf(),
            x < N_REGS,
            y < N_REGS,
            n < 16,
        ensures
            final(self).wf(),
            effect_done(draw_effect(old(self)@, x as int, y as int, n as int), r, final(self)@),
    {
        proof {
            reveal(draw_effect);
            reveal(drawn_screen);
            reveal(collides);
        }
        if self.i + n > SIZE {
            return Err(Fault::AddressOutOfRange);
        }
        let ghost m0 = self@;
        self.v.set(VF, 0);
        let ghost m1 = self@;
        let vx = self.v[x] as usize;
        let vy = self.v[y] as usize;
        let ghost s0 = self.gpu@;
        let ghost mem = self.memory@;
        let ghost i = self.i as int;
        let mut hit = false;
        let mut byte: usize = 0;
        while byte < n
            invariant
                byte <= n,
                n < 16,
                vx < 256,
                vy < 256,
                i + n <= SIZE,
                m1.wf(),
                s0 == m1.screen,
                mem == m1.memory,
                i == m1.i,
                self@ == (Machine { screen: self.gpu@, ..m1 }),
                self.gpu.wf(),
                forall|p: int|
                    0 <= p < N_PIXELS ==> #[trigger] self.gpu@[p] == if sprite_hits(mem, i, n as int, vx as int, vy as int, p)
                        && processed(vx as int, vy as int, p, byte as int, 0) {
                        toggle(s0[p])
                    } else {
                        s0[p]
                    },
                hit == exists|p: int|
                    0 <= p < N_PIXELS && #[trigger] sprite_hits(mem, i, n as int, vx as int, vy as int, p)
                        && processed(vx as int, vy as int, p, byte as int, 0) && s0[p] == WHITE,
            decreases n - byte,
        {
            let py = (vy + byte) % H_CHIP8;
            let row = self.memory[self.i + byte];
            let mut bit: usize = 0;
            while bit < 8
                invariant
                    byte < n,
                    bit <= 8,
                    vx < 256,
                    vy < 256,
                    n < 16,
                    i + n <= SIZE,
                    py == (vy + byte) % (H_CHIP8 as int),
                    row == mem[i + byte],
                    m1.wf(),
                    s0 == m1.screen,
                    mem == m1.memory,
                    i == m1.i,
                    self@ == (Machine { screen: self.gpu@, ..m1 }),
                    self.gpu.wf(),
                    forall|p: int|
                        0 <= p < N_PIXELS ==> #[trigger] self.gpu@[p] == if sprite_hits(mem, i, n as int, vx as int, vy as int, p)
                            && processed(vx as int, vy as int, p, byte as int, bit as int) {
                            toggle(s0[p])
                        } else {
                            s0[p]
                        },
                    hit == exists|p: int|
                        0 <= p < N_PIXELS && #[trigger] sprite_hits(mem, i, n as int, vx as int, vy as int, p)
                            && processed(vx as int, vy as int, p, byte as int, bit as int) && s0[p] == WHITE,
                decreases 8 - bit,
            {
                let px = (vx + bit) % W_CHIP8;
                let ghost p0 = pixel_index(px as int, py as int);
                assert(0 <= p0 < N_PIXELS);
                proof {
                    lemma_sprite_pixel(vx as int, vy as int, byte as int, bit as int, p0);
                }
                assert(p0 / 64 == py && p0 % 64 == px);
                let ghost hits0 = sprite_hits(mem, i, n as int, vx as int, vy as int, p0);
                let val_bit = (row >> (7 - bit as u8)) & 1u8;
                assert(hits0 <==> val_bit == 1u8);
                let ghost old_screen = self.gpu@;
                let ghost old_hit = hit;
                assert(!processed(vx as int, vy as int, p0, byte as int, bit as int));
                assert(old_screen[p0] == s0[p0]);
                if val_bit == 1u8 {
                    let c = self.gpu.get_color((px, py));
                    let color = if c == WHITE {
                        hit = true;
                        BLACK
                    } else {
                        WHITE
                    };
                    self.gpu.draw_pixel((px, py), color);
                }
                proof {
                    assert forall|p: int| 0 <= p < N_PIXELS implies
                        (processed(vx as int, vy as int, p, byte as int, bit + 1)
                            <==> (processed(vx as int, vy as int, p, byte as int, bit as int) || p == p0)) by {
                        lemma_sprite_pixel(vx as int, vy as int, byte as int, bit as int, p);
                    }
                    assert forall|p: int| 0 <= p < N_PIXELS implies
                        #[trigger] self.gpu@[p] == if sprite_hits(mem, i, n as int, vx as int, vy as int, p)
                            && processed(vx as int, vy as int, p, byte as int, bit + 1) {
                            toggle(s0[p])
                        } else {
                            s0[p]
                        } by {
                        lemma_sprite_pixel(vx as int, vy as int, byte as int, bit as int, p);
                        if p != p0 {
                            assert(self.gpu@[p] == old_screen[p]);
                        }
                    }
                    if hits0 && s0[p0] == WHITE {
                        assert(sprite_hits(mem, i, n as int, vx as int, vy as int, p0)
                            && processed(vx as int, vy as int, p0, byte as int, bit + 1));
                    }
                    if hit {
                        if !old_hit {
                            assert(hits0 && s0[p0] == WHITE);
                        }
                    }
                }
                bit = bit + 1;
            }
            proof {
                assert forall|p: int| 0 <= p < N_PIXELS && sprite_hits(mem, i, n as int, vx as int, vy as int, p) implies
                    (processed(vx as int, vy as int, p, byte as int, 8)
                        <==> processed(vx as int, vy as int, p, byte + 1, 0)) by {
                }
            }
            byte = byte + 1;
        }
        proof {
            assert forall|p: int| 0 <= p < N_PIXELS && sprite_hits(mem, i, n as int, vx as int, vy as int, p) implies
                processed(vx as int, vy as int, p, n as int, 0) by {
            }
            assert(self.gpu@ =~= drawn_screen(s0, mem, i, n as int, vx as int, vy as int));
            if hit {
                let p = choose|p: int|
                    0 <= p < N_PIXELS && #[trigger] sprite_hits(mem, i, n as int, vx as int, vy as int, p)
                        && processed(vx as int, vy as int, p, n as int, 0) && s0[p] == WHITE;
                assert(collides(s0, mem, i, n as int, vx as int, vy as int));
            }
            if collides(s0, mem, i, n as int, vx as int, vy as int) {
                let p = choose|p: int|
                    0 <= p < s0.len() && #[trigger] sprite_hits(mem, i, n as int, vx as int, vy as int, p) && s0[p] == WHITE;
                assert(processed(vx as int, vy as int, p, n as int, 0));
            }
        }
        self.v.set(VF, if hit { 1u8 } else { 0u8 });
        Ok(OpCodeNext::Next)
    }

    /// `8xyk`: register arithmetic and logic.
    fn exec_alu(&mut self, op: u16, x: usize, y: usize, k: u8) -> (r: Result<OpCodeNext, Fault>)
        requires
            old(self).wf(),
            x < N_REGS,
            y < N_REGS,
        ensures
            final(self).wf(),
            effect_done(alu_effect(old(self)@, op, x as int, y as int, k as int), r, final(self)@),
    {
        proof {
            reveal(alu_effect);
        }
        let vx = self.v[x];
        let vy = self.v[y];
        if k == 0 {
            self.v.set(x, vy);
        } else if k == 1 {
            self.v.set(x, vx | vy);
        } else if k == 2 {
            self.v.set(x, vx & vy);
        } else if k == 3 {
            self.v.set(x, vx ^ vy);
        } else if k == 4 {
            let sum: u16 = vx as u16 + vy as u16;
            self.v.set(x, (sum % 256) as u8);
            self.v.set(VF, if sum > 0xFF { 1u8 } else { 0u8 });
        } else if k == 5 {
            self.v.set(VF, if vx > vy { 1u8 } else { 0u8 });
            let a = self.v[x];
            let b = self.v[y];
            self.v.set(x, ((a as u16 + 256 - b as u16) % 256) as u8);
        } else if k == 6 {
            self.v.set(VF, vx % 2);
            let a = self.v[x];
            self.v.set(x, a / 2);
        } else if k == 7 {
            self.v.set(VF, if vy > vx { 1u8 } else { 0u8 });
            let a = self.v[x];
            let b = self.v[y];
            self.v.set(x, ((b as u16 + 256 - a as u16) % 256) as u8);
        } else if k == 14 {
            self.v.set(VF, vx / 128);
            let a = self.v[x];
            self.v.set(x, ((a as u16 * 2) % 256) as u8);
        } else {
            return Err(Fault::Unsupported(op));
        }
        Ok(OpCodeNext::Next)
    }

    /// `Fxkk`: timers, key wait, the index register and memory transfers.
    fn exec_misc(&mut self, op: u16, keys: &[bool; 16], x: usize, kk: u8) -> (r: Result<OpCodeNext, Fault>)
        requires
            old(self).wf(),
            x < N_REGS,
        ensures
            final(self).wf(),
            effect_done(misc_effect(old(self)@, op, keys@, x as int, kk as int), r, final(self)@),
    {
        proof {
            reveal(misc_effect);
        }
        let ghost m0 = self@;
        let vx = self.v[x];
        if kk == 0x07 {
            self.v.set(x, self.count_game);
        } else if kk == 0x0A {
            let mut k: usize = 0;
            while k < N_KEYS && !keys[k]
                invariant
                    k <= N_KEYS,
                    keys@.len() == N_KEYS,
                    first_pressed(keys@, 0) == first_pressed(keys@, k as int),
                decreases N_KEYS - k,
            {
                k = k + 1;
            }
            if k < N_KEYS {
                self.v.set(x, k as u8);
            } else {
                return Ok(OpCodeNext::Wait);
            }
        } else if kk == 0x15 {
            self.count_game = vx;
        } else if kk == 0x18 {
            self.count_sound = vx;
        } else if kk == 0x1E {
            let s = self.i + vx as usize;
            self.i = s % SIZE;
            self.v.set(VF, if s > MAX_ADDR { 1u8 } else { 0u8 });
        } else if kk == 0x29 {
            self.i = ((vx % 16) as usize) * 5;
        } else if kk == 0x33 {
            if self.i + 2 > MAX_ADDR {
                return Err(Fault::AddressOutOfRange);
            }
            let i = self.i;
            self.memory.set(i, vx / 100);
            self.memory.set(i + 1, (vx % 100) / 10);
            self.memory.set(i + 2, vx % 10);
        } else if kk == 0x55 {
            if self.i + x > MAX_ADDR {
                return Err(Fault::AddressOutOfRange);
            }
            let i = self.i;
            let mut k: usize = 0;
            while k <= x
                invariant
                    k <= x + 1,
                    x < N_REGS,
                    i == m0.i,
                    i + x <= MAX_ADDR,
                    m0.wf(),
                    self@ == (Machine { memory: self.memory@, ..m0 }),
                    self.memory@.len() == SIZE,
                    forall|a: int| 0 <= a < SIZE ==> #[trigger] self.memory@[a] == if i <= a < i + k { m0.v[a - i] } else { m0.memory[a] },
                decreases x + 1 - k,
            {
                let b = self.v[k];
                self.memory.set(i + k, b);
                k = k + 1;
            }
            assert(self.memory@ =~= Seq::new(SIZE as nat, |a: int| if m0.i <= a <= m0.i + x { m0.v[a - m0.i] } else { m0.memory[a] }));
        } else if kk == 0x65 {
            if self.i + x > MAX_ADDR {
                return Err(Fault::AddressOutOfRange);
            }
            let i = self.i;
            let mut k: usize = 0;
            while k <= x
                invariant
                    k <= x + 1,
                    x < N_REGS,
                    i == m0.i,
                    i + x <= MAX_ADDR,
                    m0.wf(),
                    self@ == (Machine { v: self.v@, ..m0 }),
                    self.v@.len() == N_REGS,
                    forall|r: int| 0 <= r < N_REGS ==> #[trigger] self.v@[r] == if r < k { m0.memory[i + r] } else { m0.v[r] },
                decreases x + 1 - k,
            {
                let b = self.memory[i + k];
                self.v.set(k, b);
                k = k + 1;
            }
            assert(self.v@ =~= Seq::new(N_REGS as nat, |r: int| if r <= x { m0.memory[m0.i + r] } else { m0.v[r] }));
        } else {
            return Err(Fault::Unsupported(op));
        }
        Ok(OpCodeNext::Next)
    }

    /// Everything instruction `op` does but move the program counter.
    fn exec_effects(&mut self, op: u16, keys: &[bool; 16], rnd: u8) -> (r: Result<OpCodeNext, Fault>)
        requires
            old(self).wf(),
        ensures
            final(self).wf(),
            effect_done(effects(old(self)@, op, keys@, rnd), r, final(self)@),
    {
        let d = decode(op);
        let x = d.x as usize;
        let y = d.y as usize;
        let vx = self.v[x];
        let vy = self.v[y];
        if d.a == 0 {
            if op == 0x00E0 {
                self.gpu.clear_screen();
                Ok(OpCodeNext::Next)
            } else if op == 0x00EE {
                if self.sp == 0 {
                    return Err(Fault::StackUnderflow);
                }
                self.sp = self.sp - 1;
                Ok(OpCodeNext::Jump(self.stack[self.sp]))
            } else {
                Err(Fault::Unsupported(op))
            }
        } else if d.a == 1 {
            Ok(OpCodeNext::Jump(d.nnn as usize))
        } else if d.a == 2 {
            if self.sp >= STACK_DEPTH {
                return Err(Fault::StackOverflow);
            }
            let sp = self.sp;
            self.stack.set(sp, self.pc + 2);
            self.sp = sp + 1;
            Ok(OpCodeNext::Jump(d.nnn as usize))
        } else if d.a == 3 {
            Ok(OpCodeNext::skip_if(vx == d.nn))
        } else if d.a == 4 {
            Ok(OpCodeNext::skip_if(vx != d.nn))
        } else if d.a == 5 {
            if d.n == 0 {
                Ok(OpCodeNext::skip_if(vx == vy))
            } else {
                Err(Fault::Unsupported(op))
            }
        } else if d.a == 6 {
            self.v.set(x, d.nn);
            Ok(OpCodeNext::Next)
        } else if d.a == 7 {
            self.v.set(x, ((vx as u16 + d.nn as u16) % 256) as u8);
            Ok(OpCodeNext::Next)
        } else if d.a == 8 {
            self.exec_alu(op, x, y, d.n)
        } else if d.a == 9 {
            if d.n == 0 {
                Ok(OpCodeNext::skip_if(vx != vy))
            } else {
                Err(Fault::Unsupported(op))
            }
        } else if d.a == 10 {
            self.i = d.nnn as usize;
            Ok(OpCodeNext::Next)
        } else if d.a == 11 {
            Ok(OpCodeNext::Jump(d.nnn as usize + self.v[0] as usize))
        } else if d.a == 12 {
            self.v.set(x, rnd);
            Ok(OpCodeNext::Next)
        } else if d.a == 13 {
            self.draw_sprite(x, y, d.n as usize)
        } else if d.a == 14 {
            let down = (vx as usize) < N_KEYS && keys[vx as usize];
            if d.nn == 0x9E {
                Ok(OpCodeNext::skip_if(down))
            } else if d.nn == 0xA1 {
                Ok(OpCodeNext::skip_if(!down))
            } else {
                Err(Fault::Unsupported(op))
            }
        } else {
            self.exec_misc(op, keys, x, d.nn)
        }
    }

    /// Executes instruction `op` with `rnd` as the value drawn by `Cxnn`: its effects,
    /// then the move of the program counter. On a fault the machine must stop.
    pub fn execute(&mut self, op: u16, keys: &[bool; 16], rnd: u8) -> (r: Result<(), Fault>)
        requires
            old(self).wf(),
        ensures
            final(self).wf(),
            outcome(old(self)@, op, keys@, rnd, r, final(self)@),
    {
        let pc = self.pc;
        let next = match self.exec_effects(op, keys, rnd) {
            Ok(next) => next,
            Err(e) => {
                return Err(e);
            },
        };
        let target: usize = match next {
            OpCodeNext::Next => pc + 2,
            OpCodeNext::Skip => pc + 4,
            OpCodeNext::Jump(a) => a,
            OpCodeNext::Wait => pc,
        };
        if target > MAX_ADDR {
            return Err(Fault::AddressOutOfRange);
        }
        self.pc = target;
        Ok(())
    }

    /// Executes instruction `opcode`; for `Cxnn` the value is drawn at random from `0..=nn`.
    pub fn run_opcode(&mut self, opcode: u16, keys: &[bool; 16]) -> (r: Result<(), Fault>)
        requires
            old(self).wf(),
        ensures
            final(self).wf(),
            exists|rnd: u8| rnd <= random_bound(opcode) && #[trigger] outcome(old(self)@, opcode, keys@, rnd, r, final(self)@),
    {
        let d = decode(opcode);
        let rnd = if d.a == 12 { random_up_to(d.nn) } else { 0u8 };
        let r = self.execute(opcode, keys, rnd);
        assert(outcome(old(self)@, opcode, keys@, rnd, r, self@));
        r
    }

    /// One cycle: fetches the instruction at the program counter and runs it.
    pub fn cycle(&mut self, keys: &[bool; 16]) -> (r: Result<(), Fault>)
        requires
            old(self).wf(),
        ensures
            final(self).wf(),
            old(self)@.pc + 1 > MAX_ADDR ==> r == Err::<(), Fault>(Fault::AddressOutOfRange) && final(self)@ == old(self)@,
            old(self)@.pc + 1 <= MAX_ADDR ==> exists|rnd: u8|
                rnd <= random_bound(opcode_at(old(self)@, old(self)@.pc as int))
                    && #[trigger] outcome(old(self)@, opcode_at(old(self)@, old(self)@.pc as int), keys@, rnd, r, final(self)@),
    {
        let opcode = match self.get_opcode() {
            Ok(op) => op,
            Err(e) => {
                return Err(e);
            },
        };
        self.run_opcode(opcode, keys)
    }
}

} // verus!
