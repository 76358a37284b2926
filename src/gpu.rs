use vstd::prelude::*;

verus! {

/// Width of the display, in pixels.
pub const W_CHIP8: usize = 64;
/// Height of the display, in pixels.
pub const H_CHIP8: usize = 32;
/// Number of pixels on the display.
pub const N_PIXELS: usize = 2048;

/// Side of the square that shows one pixel in a frame.
pub const PIXEL_SIZE: usize = 10;
/// Width of a frame.
pub const WIDTH: usize = 640;
/// Height of a frame.
pub const HEIGHT: usize = 320;

/// Background color.
pub const BLACK: u32 = 0x00_00_00u32;
/// Foreground color.
pub const WHITE: u32 = 0xff_ff_ffu32;

/// A pixel value of the monochrome display.
pub open spec fn is_mono(c: u32) -> bool {
    c == BLACK || c == WHITE
}

/// Index of pixel `(x, y)` in the row-major framebuffer.
pub open spec fn pixel_index(x: int, y: int) -> int {
    y * (W_CHIP8 as int) + x
}

/// A framebuffer in which every pixel is background.
pub open spec fn blank_screen() -> Seq<u32> {
    Seq::new(N_PIXELS as nat, |p: int| BLACK)
}

/// A well-formed framebuffer: one monochrome value per pixel.
pub open spec fn screen_wf(s: Seq<u32>) -> bool {
    &&& s.len() == N_PIXELS
    &&& forall|p: int| 0 <= p < s.len() ==> is_mono(#[trigger] s[p])
}

/// The monochrome framebuffer the machine draws on.
pub struct GPU {
    buffer: Vec<u32>,
}

impl View for GPU {
    type V = Seq<u32>;

    closed spec fn view(&self) -> Seq<u32> {
        self.buffer@
    }
}

impl GPU {
    pub open spec fn wf(&self) -> bool {
        screen_wf(self@)
    }

    /// A display with every pixel in the background color.
    pub fn new() -> (r: GPU)
        ensures
            r.wf(),
            r@ == blank_screen(),
    {
        let mut buffer: Vec<u32> = Vec::new();
        let mut k: usize = 0;
        while k < N_PIXELS
            invariant
                k <= N_PIXELS,
                buffer@.len() == k,
                forall|p: int| 0 <= p < k ==> buffer@[p] == BLACK,
            decreases N_PIXELS - k,
        {
            buffer.push(BLACK);
            k = k + 1;
        }
        assert(buffer@ =~= blank_screen());
        GPU { buffer }
    }

    /// Sets pixel `pos = (x, y)` to `color`.
    pub fn draw_pixel(&mut self, pos: (usize, usize), color: u32)
        requires
            old(self).wf(),
            pos.0 < W_CHIP8,
            pos.1 < H_CHIP8,
            is_mono(color),
        ensures
            final(self).wf(),
            final(self)@ == old(self)@.update(pixel_index(pos.0 as int, pos.1 as int), color),
    {
        let idx = pos.1 * W_CHIP8 + pos.0;
        self.buffer.set(idx, color);
    }

    /// The color of pixel `pos = (x, y)`.
    pub fn get_color(&self, pos: (usize, usize)) -> (r: u32)
        requires
            self.wf(),
            pos.0 < W_CHIP8,
            pos.1 < H_CHIP8,
        ensures
            r == self@[pixel_index(pos.0 as int, pos.1 as int)],
            is_mono(r),
    {
        self.buffer[pos.1 * W_CHIP8 + pos.0]
    }

    /// Resets every pixel to the background color.
    pub fn clear_screen(&mut self)
        requires
            old(self).wf(),
        ensures
            final(self).wf(),
            final(self)@ == blank_screen(),
    {
        let mut k: usize = 0;
        while k < N_PIXELS
            invariant
                k <= N_PIXELS,
                self.buffer@.len() == N_PIXELS,
                forall|p: int| 0 <= p < k ==> self.buffer@[p] == BLACK,
            decreases N_PIXELS - k,
        {
            self.buffer.set(k, BLACK);
            k = k + 1;
        }
        assert(self.buffer@ =~= blank_screen());
    }

    /// The display scaled up for presentation: row-major, `WIDTH` by `HEIGHT`, each pixel
    /// shown as a `PIXEL_SIZE` square.
    pub fn frame(&self) -> (r: Vec<u32>)
        requires
            self.wf(),
        ensures
            r@.len() == WIDTH * HEIGHT,
            forall|i: int, j: int|
                0 <= i < WIDTH && 0 <= j < HEIGHT ==> #[trigger] r@[j * (WIDTH as int) + i]
                    == self@[pixel_index(i / (PIXEL_SIZE as int), j / (PIXEL_SIZE as int))],
    {
        let mut r: Vec<u32> = Vec::new();
        let mut j: usize = 0;
        while j < HEIGHT
            invariant
                j <= HEIGHT,
                self.wf(),
                r@.len() == j * WIDTH,
                forall|jj: int, i: int|
                    0 <= i < WIDTH && 0 <= jj < j ==> #[trigger] r@[jj * (WIDTH as int) + i]
                        == self@[pixel_index(i / (PIXEL_SIZE as int), jj / (PIXEL_SIZE as int))],
            decreases HEIGHT - j,
        {
            let mut i: usize = 0;
            while i < WIDTH
                invariant
                    j < HEIGHT,
                    i <= WIDTH,
                    self.wf(),
                    r@.len() == j * WIDTH + i,
                    forall|jj: int, ii: int|
                        0 <= ii < WIDTH && 0 <= jj < j ==> #[trigger] r@[jj * (WIDTH as int) + ii]
                            == self@[pixel_index(ii / (PIXEL_SIZE as int), jj / (PIXEL_SIZE as int))],
                    forall|ii: int|
                        0 <= ii < i ==> #[trigger] r@[j * (WIDTH as int) + ii]
                            == self@[pixel_index(ii / (PIXEL_SIZE as int), j as int / (PIXEL_SIZE as int))],
                decreases WIDTH - i,
            {
                let c = self.buffer[(j / PIXEL_SIZE) * W_CHIP8 + i / PIXEL_SIZE];
                let ghost before = r@;
                r.push(c);
                assert forall|jj: int, ii: int|
                    0 <= ii < WIDTH && 0 <= jj < j implies #[trigger] r@[jj * (WIDTH as int) + ii] == before[jj * (WIDTH as int) + ii] by {
                    assert(jj * (WIDTH as int) + ii < j * (WIDTH as int)) by (nonlinear_arith)
                        requires 0 <= ii < WIDTH, 0 <= jj < j;
                }
                i = i + 1;
            }
            assert forall|jj: int, ii: int|
                0 <= ii < WIDTH && 0 <= jj < j + 1 implies #[trigger] r@[jj * (WIDTH as int) + ii]
                    == self@[pixel_index(ii / (PIXEL_SIZE as int), jj / (PIXEL_SIZE as int))] by {
                if jj == j {
                    assert(r@[j * (WIDTH as int) + ii] == self@[pixel_index(ii / (PIXEL_SIZE as int), j as int / (PIXEL_SIZE as int))]);
                }
            }
            j = j + 1;
        }
        r
    }
}

} // verus!
