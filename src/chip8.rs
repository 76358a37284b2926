use vstd::prelude::*;
use crate::cpu::CPU;
use crate::gpu::{GPU, BLACK, WHITE, W_CHIP8, H_CHIP8, N_PIXELS, pixel_index};

verus! {

/// The start-up picture: pixel `(x, y)` is background where `y + 1` divides `x`.
pub open spec fn test_pattern() -> Seq<u32> {
    Seq::new(N_PIXELS as nat, |p: int| if (p % (W_CHIP8 as int)) % (p / (W_CHIP8 as int) + 1) == 0 { BLACK } else { WHITE })
}

/// A machine together with the display it is shown on.
pub struct Chip8 {
    cpu: CPU,
    gpu: GPU,
}

impl Chip8 {
    pub open spec fn wf(&self) -> bool {
        self.cpu().wf() && self.gpu().wf()
    }

    pub closed spec fn cpu(&self) -> CPU {
        self.cpu
    }

    pub closed spec fn gpu(&self) -> GPU {
        self.gpu
    }

    /// A fresh machine and a blank display.
    pub fn new() -> (r: Chip8)
        ensures
            r.wf(),
            r.cpu()@ == crate::cpu::initial_machine(),
            r.gpu()@ == crate::gpu::blank_screen(),
    {
        Chip8 { cpu: CPU::new(), gpu: GPU::new() }
    }

    /// Clears the display and draws the start-up picture on it.
    pub fn init(&mut self)
        requires
            old(self).wf(),
        ensures
            final(self).wf(),
            final(self).cpu() == old(self).cpu(),
            final(self).gpu()@ == test_pattern(),
    {
        self.gpu.clear_screen();
        let mut x: usize = 0;
        while x < W_CHIP8
            invariant
                x <= W_CHIP8,
                self.gpu.wf(),
                self.cpu == old(self).cpu,
                forall|p: int| 0 <= p < N_PIXELS ==> #[trigger] self.gpu@[p] == if p % (W_CHIP8 as int) < x { test_pattern()[p] } else { BLACK },
            decreases W_CHIP8 - x,
        {
            let mut y: usize = 0;
            while y < H_CHIP8
                invariant
                    x < W_CHIP8,
                    y <= H_CHIP8,
                    self.gpu.wf(),
                    self.cpu == old(self).cpu,
                    forall|p: int| 0 <= p < N_PIXELS ==> #[trigger] self.gpu@[p] ==
                        if p % (W_CHIP8 as int) < x || (p % (W_CHIP8 as int) == x && p / (W_CHIP8 as int) < y) { test_pattern()[p] } else { BLACK },
                decreases H_CHIP8 - y,
            {
                let color = if x % (y + 1) == 0 { BLACK } else { WHITE };
                let ghost q = pixel_index(x as int, y as int);
                assert(q % 64 == x && q / 64 == y);
                self.gpu.draw_pixel((x, y), color);
                y = y + 1;
            }
            x = x + 1;
        }
        assert(self.gpu@ =~= test_pattern());
    }

    /// The machine.
    pub fn cpu_ref(&self) -> (r: &CPU)
        ensures
            *r == self.cpu(),
    {
        &self.cpu
    }

    /// The machine, for running it.
    pub fn cpu_mut(&mut self) -> (r: &mut CPU)
        ensures
            *r == old(self).cpu(),
            final(self).cpu() == *final(r),
            final(self).gpu() == old(self).gpu(),
    {
        &mut self.cpu
    }

    /// The display.
    pub fn screen(&self) -> (r: &GPU)
        ensures
            *r == self.gpu(),
    {
        &self.gpu
    }
}

} // verus!
