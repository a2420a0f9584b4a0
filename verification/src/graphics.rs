//! The monochrome framebuffer: a fixed 128x64 grid of pixels, of which the
//! sub-rectangle selected by the current display mode is addressable by the
//! drawing instructions.

use vstd::prelude::*;

verus! {

/// Number of pixel columns in the backing grid (SuperCHIP width).
pub const MAX_X: usize = 128;

/// Number of pixel rows in the backing grid (SuperCHIP height).
pub const MAX_Y: usize = 64;

/// Either the classic CHIP resolution (64x32) or the SuperCHIP
/// resolution (128x64).
#[derive(Clone, Copy, PartialEq, Eq, Structural, Debug)]
pub enum Mode {
    Chip,
    Schip,
}

impl Mode {
    /// Addressable width of this mode, in pixels.
    pub open spec fn width(self) -> int {
        match self {
            Mode::Chip => 64,
            Mode::Schip => 128,
        }
    }

    /// Addressable height of this mode, in pixels.
    pub open spec fn height(self) -> int {
        match self {
            Mode::Chip => 32,
            Mode::Schip => 64,
        }
    }

    pub fn get_width(&self) -> (w: usize)
        ensures
            w == self.width(),
    {
        match *self {
            Mode::Chip => 64,
            Mode::Schip => 128,
        }
    }

    pub fn get_height(&self) -> (h: usize)
        ensures
            h == self.height(),
    {
        match *self {
            Mode::Chip => 32,
            Mode::Schip => 64,
        }
    }
}

/// A fully blank (all pixels unset) backing grid.
pub open spec fn blank_grid() -> Seq<Seq<bool>> {
    Seq::new(MAX_Y as nat, |y: int| Seq::new(MAX_X as nat, |x: int| false))
}

/// Well-formedness of a grid model: 64 rows of 128 pixels each.
pub open spec fn grid_wf(g: Seq<Seq<bool>>) -> bool {
    &&& g.len() == MAX_Y
    &&& forall|y: int| 0 <= y < MAX_Y ==> (#[trigger] g[y]).len() == MAX_X
}

/// The `i`-th bit, most significant first, of the low `bits` bits of `line`.
pub open spec fn line_bit(line: usize, bits: usize, i: int) -> bool
    recommends
        1 <= bits <= 32,
        0 <= i < bits,
{
    line & ((1usize << ((bits - 1) as usize)) >> (i as usize)) != 0
}

/// The grid after XOR-compositing the low `bits` bits of `line` into row
/// `row` starting at column `x0`. Bits that run past the right edge of the
/// backing grid are discarded; the x coordinate does not wrap.
pub open spec fn compose_line(
    g: Seq<Seq<bool>>,
    row: int,
    x0: int,
    line: usize,
    bits: usize,
) -> Seq<Seq<bool>> {
    Seq::new(
        MAX_Y as nat,
        |y: int|
            if y == row {
                Seq::new(
                    MAX_X as nat,
                    |x: int|
                        if x0 <= x < x0 + bits {
                            g[y][x] ^ line_bit(line, bits, x - x0)
                        } else {
                            g[y][x]
                        },
                )
            } else {
                g[y]
            },
    )
}

/// Whether compositing `line` into row `row` at column `x0` unsets at least
/// one already-set pixel (the CHIP-8 collision condition).
pub open spec fn line_collision(
    g: Seq<Seq<bool>>,
    row: int,
    x0: int,
    line: usize,
    bits: usize,
) -> bool {
    exists|i: int|
        0 <= i < bits && x0 + i < MAX_X && #[trigger] line_bit(line, bits, i) && g[row][x0 + i]
}

/// Compositing a sprite line into an all-blank target region reports no
/// collision, whatever the sprite bits are.
pub proof fn lemma_draw_line_blank_no_collision(
    g: Seq<Seq<bool>>,
    row: int,
    x0: int,
    line: usize,
    bits: usize,
)
    requires
        forall|i: int| 0 <= i < bits && x0 + i < MAX_X ==> !(#[trigger] g[row][x0 + i]),
    ensures
        !line_collision(g, row, x0, line, bits),
{
}

/// The grid after shifting the mode rectangle of `g` right by `n` cells.
pub open spec fn scrolled_right(g: Seq<Seq<bool>>, m: Mode, n: int) -> Seq<Seq<bool>> {
    Seq::new(
        MAX_Y as nat,
        |y: int|
            if y < m.height() {
                Seq::new(
                    MAX_X as nat,
                    |x: int|
                        if x < m.width() {
                            if n <= x {
                                g[y][x - n]
                            } else {
                                false
                            }
                        } else {
                            g[y][x]
                        },
                )
            } else {
                g[y]
            },
    )
}

/// The grid after shifting the mode rectangle of `g` left by `n` cells.
pub open spec fn scrolled_left(g: Seq<Seq<bool>>, m: Mode, n: int) -> Seq<Seq<bool>> {
    Seq::new(
        MAX_Y as nat,
        |y: int|
            if y < m.height() {
                Seq::new(
                    MAX_X as nat,
                    |x: int|
                        if x < m.width() {
                            if x + n < m.width() {
                                g[y][x + n]
                            } else {
                                false
                            }
                        } else {
                            g[y][x]
                        },
                )
            } else {
                g[y]
            },
    )
}

/// The grid after shifting the mode rectangle of `g` down by `n` rows.
pub open spec fn scrolled_down(g: Seq<Seq<bool>>, m: Mode, n: int) -> Seq<Seq<bool>> {
    Seq::new(
        MAX_Y as nat,
        |y: int|
            if y < m.height() {
                Seq::new(
                    MAX_X as nat,
                    |x: int|
                        if x < m.width() {
                            if n <= y {
                                g[y - n][x]
                            } else {
                                false
                            }
                        } else {
                            g[y][x]
                        },
                )
            } else {
                g[y]
            },
    )
}

/// The owned pixel grid together with the currently selected mode.
pub struct Graphics {
    pub mode: Mode,
    pub screen: [[bool; 128]; 64],
}

/// Read one cell of a backing grid held outside a `Graphics` value.
fn grid_read(a: &[[bool; 128]; 64], x: usize, y: usize) -> (state: bool)
    requires
        x < MAX_X,
        y < MAX_Y,
    ensures
        state == a.deep_view()[y as int][x as int],
{
    let row: [bool; 128] = a[y];
    let state: bool = row[x];
    proof {
        assert(a.deep_view()[y as int] == a@[y as int].deep_view());
    }
    state
}

impl Graphics {
    /// The mathematical model of the pixel grid.
    pub open spec fn grid(&self) -> Seq<Seq<bool>> {
        self.screen.deep_view()
    }

    pub fn new() -> (g: Graphics)
        ensures
            g.mode == Mode::Chip,
            g.grid() =~~= blank_grid(),
    {
        let g = Graphics { mode: Mode::Chip, screen: [[false; 128]; 64] };
        proof {
            assert forall|y: int, x: int| 0 <= y < MAX_Y && 0 <= x < MAX_X implies g.grid()[y][x]
                == false by {
                assert(g.screen@[y]@[x] == false);
            }
        }
        g
    }

    /// Select the addressable resolution; the pixel state is kept.
    pub fn set_mode(&mut self, mode: Mode)
        ensures
            final(self).mode == mode,
            final(self).grid() == old(self).grid(),
    {
        self.mode = mode;
    }

    /// Unconditionally set one pixel of the backing grid.
    pub fn draw_pix(&mut self, x: usize, y: usize, state: bool)
        requires
            x < MAX_X,
            y < MAX_Y,
        ensures
            final(self).mode == old(self).mode,
            final(self).grid() =~~= old(self).grid().update(
                y as int,
                old(self).grid()[y as int].update(x as int, state),
            ),
    {
        let mut row: [bool; 128] = self.screen[y];
        row[x] = state;
        self.screen[y] = row;
    }

    /// Read one pixel of the backing grid.
    pub fn get_pix(&self, x: usize, y: usize) -> (state: bool)
        requires
            x < MAX_X,
            y < MAX_Y,
        ensures
            state == self.grid()[y as int][x as int],
    {
        self.screen[y][x]
    }

    /// Unpack the low `bit_count` bits of `n` into single-bit bytes, most
    /// significant bit first.
    fn to_bit_vec(n: usize, bit_count: usize) -> (v: Vec<u8>)
        requires
            1 <= bit_count <= 16,
        ensures
            v@.len() == bit_count,
            forall|i: int|
                0 <= i < bit_count ==> (#[trigger] v@[i]) == if line_bit(n, bit_count, i) {
                    1u8
                } else {
                    0u8
                },
    {
        let largest_bit: usize = 1usize << (bit_count - 1);
        let mut v: Vec<u8> = Vec::new();
        let mut idx: usize = 0;
        while idx < bit_count
            invariant
                1 <= bit_count <= 16,
                largest_bit == 1usize << ((bit_count - 1) as usize),
                idx <= bit_count,
                v@.len() == idx,
                forall|i: int|
                    0 <= i < idx ==> (#[trigger] v@[i]) == if line_bit(n, bit_count, i) {
                        1u8
                    } else {
                        0u8
                    },
            decreases bit_count - idx,
        {
            let b: u8 = if n & (largest_bit >> idx) != 0 {
                1
            } else {
                0
            };
            v.push(b);
            idx = idx + 1;
        }
        v
    }

    /// XOR-composite the low `bits` bits of `line`, most significant first,
    /// into the row selected by `starty` (wrapped modulo the mode height),
    /// starting at column `startx` (not wrapped; bits past the right edge of
    /// the backing grid are discarded). Returns whether at least one
    /// already-set pixel was unset by the compositing.
    pub fn draw_line(&mut self, startx: u8, starty: u8, line: usize, bits: usize) -> (collision:
        bool)
        requires
            1 <= bits <= 16,
        ensures
            final(self).mode == old(self).mode,
            final(self).grid() =~~= compose_line(
                old(self).grid(),
                (starty as int) % old(self).mode.height(),
                startx as int,
                line,
                bits,
            ),
            collision == line_collision(
                old(self).grid(),
                (starty as int) % old(self).mode.height(),
                startx as int,
                line,
                bits,
            ),
    {
        let row: usize = (starty as usize) % self.mode.get_height();
        let states: Vec<u8> = Graphics::to_bit_vec(line, bits);
        let ghost grow: int = (starty as int) % old(self).mode.height();
        let mut collision: bool = false;
        let mut i: usize = 0;
        proof {
            assert(grow == row as int);
        }
        while i < bits
            invariant
                1 <= bits <= 16,
                i <= bits,
                row < MAX_Y,
                row == grow,
                states@.len() == bits,
                forall|j: int|
                    0 <= j < bits ==> (#[trigger] states@[j]) == if line_bit(line, bits, j) {
                        1u8
                    } else {
                        0u8
                    },
                self.mode == old(self).mode,
                forall|r: int| 0 <= r < MAX_Y && r != grow ==> #[trigger] self.grid()[r] == old(
                    self,
                ).grid()[r],
                forall|c: int|
                    0 <= c < MAX_X ==> (#[trigger] self.grid()[grow][c]) == if startx <= c < startx
                        + i {
                        old(self).grid()[grow][c] ^ line_bit(line, bits, c - startx)
                    } else {
                        old(self).grid()[grow][c]
                    },
                collision == exists|j: int|
                    0 <= j < i && startx + j < MAX_X && #[trigger] line_bit(line, bits, j) && old(
                        self,
                    ).grid()[grow][startx + j],
            decreases bits - i,
        {
            let x: usize = startx as usize + i;
            if x < 128 {
                let bit: bool = states[i] != 0;
                let old_pix: bool = self.get_pix(x, row);
                proof {
                    assert(old_pix == old(self).grid()[grow][x as int]);
                }
                if old_pix && bit {
                    collision = true;
                    proof {
                        assert(line_bit(line, bits, i as int) && old(self).grid()[grow][startx + (
                        i as int)]);
                    }
                }
                self.draw_pix(x, row, old_pix ^ bit);
            }
            i = i + 1;
        }
        collision
    }

    /// Shift the pixels of the current mode's rectangle `n` cells to the
    /// right; vacated cells become unset, cells shifted past the edge are
    /// discarded. Pixels outside the rectangle are untouched.
    pub fn scroll_right(&mut self, n: u8)
        ensures
            final(self).mode == old(self).mode,
            final(self).grid() =~~= scrolled_right(old(self).grid(), old(self).mode, n as int),
    {
        let w: usize = self.mode.get_width();
        let h: usize = self.mode.get_height();
        let n_cells: usize = n as usize;
        let snapshot: [[bool; 128]; 64] = self.screen;
        proof {
            assert(snapshot.deep_view() =~~= old(self).grid());
        }
        let mut y: usize = 0;
        while y < h
            invariant
                w == old(self).mode.width(),
                h == old(self).mode.height(),
                n_cells == n as int,
                y <= h,
                snapshot.deep_view() == old(self).grid(),
                self.mode == old(self).mode,
                forall|r: int, c: int|
                    0 <= r < y && 0 <= c < w ==> (#[trigger] self.grid()[r][c]) == if n_cells <= c {
                        old(self).grid()[r][c - n_cells]
                    } else {
                        false
                    },
                forall|r: int, c: int|
                    0 <= r < MAX_Y && w <= c < MAX_X ==> (#[trigger] self.grid()[r][c]) == old(
                        self,
                    ).grid()[r][c],
                forall|r: int, c: int|
                    y <= r < MAX_Y && 0 <= c < MAX_X ==> (#[trigger] self.grid()[r][c]) == old(
                        self,
                    ).grid()[r][c],
            decreases h - y,
        {
            let mut x: usize = 0;
            while x < w
                invariant
                    w == old(self).mode.width(),
                    h == old(self).mode.height(),
                    n_cells == n as int,
                    y < h,
                    x <= w,
                    snapshot.deep_view() == old(self).grid(),
                    self.mode == old(self).mode,
                    forall|r: int, c: int|
                        0 <= r < y && 0 <= c < w ==> (#[trigger] self.grid()[r][c]) == if n_cells
                            <= c {
                            old(self).grid()[r][c - n_cells]
                        } else {
                            false
                        },
                    forall|c: int|
                        0 <= c < x ==> (#[trigger] self.grid()[y as int][c]) == if n_cells <= c {
                            old(self).grid()[y as int][c - n_cells]
                        } else {
                            false
                        },
                    forall|r: int, c: int|
                        0 <= r < MAX_Y && w <= c < MAX_X ==> (#[trigger] self.grid()[r][c]) == old(
                            self,
                        ).grid()[r][c],
                    forall|r: int, c: int|
                        y < r < MAX_Y && 0 <= c < MAX_X ==> (#[trigger] self.grid()[r][c]) == old(
                            self,
                        ).grid()[r][c],
                    forall|c: int|
                        x <= c < w ==> (#[trigger] self.grid()[y as int][c]) == old(
                            self,
                        ).grid()[y as int][c],
                decreases w - x,
            {
                let v: bool = if x >= n_cells {
                    grid_read(&snapshot, x - n_cells, y)
                } else {
                    false
                };
                self.draw_pix(x, y, v);
                x = x + 1;
            }
            y = y + 1;
        }
    }

    /// Shift the pixels of the current mode's rectangle `n` cells to the
    /// left; vacated cells become unset, cells shifted past the edge are
    /// discarded. Pixels outside the rectangle are untouched.
    pub fn scroll_left(&mut self, n: u8)
        ensures
            final(self).mode == old(self).mode,
            final(self).grid() =~~= scrolled_left(old(self).grid(), old(self).mode, n as int),
    {
        let w: usize = self.mode.get_width();
        let h: usize = self.mode.get_height();
        let n_cells: usize = n as usize;
        let snapshot: [[bool; 128]; 64] = self.screen;
        proof {
            assert(snapshot.deep_view() =~~= old(self).grid());
        }
        let mut y: usize = 0;
        while y < h
            invariant
                w == old(self).mode.width(),
                h == old(self).mode.height(),
                n_cells == n as int,
                y <= h,
                snapshot.deep_view() == old(self).grid(),
                self.mode == old(self).mode,
                forall|r: int, c: int|
                    0 <= r < y && 0 <= c < w ==> (#[trigger] self.grid()[r][c]) == if c + n_cells
                        < w {
                        old(self).grid()[r][c + n_cells]
                    } else {
                        false
                    },
                forall|r: int, c: int|
                    0 <= r < MAX_Y && w <= c < MAX_X ==> (#[trigger] self.grid()[r][c]) == old(
                        self,
                    ).grid()[r][c],
                forall|r: int, c: int|
                    y <= r < MAX_Y && 0 <= c < MAX_X ==> (#[trigger] self.grid()[r][c]) == old(
                        self,
                    ).grid()[r][c],
            decreases h - y,
        {
            let mut x: usize = 0;
            while x < w
                invariant
                    w == old(self).mode.width(),
                    h == old(self).mode.height(),
                    n_cells == n as int,
                    y < h,
                    x <= w,
                    snapshot.deep_view() == old(self).grid(),
                    self.mode == old(self).mode,
                    forall|r: int, c: int|
                        0 <= r < y && 0 <= c < w ==> (#[trigger] self.grid()[r][c]) == if c
                            + n_cells < w {
                            old(self).grid()[r][c + n_cells]
                        } else {
                            false
                        },
                    forall|c: int|
                        0 <= c < x ==> (#[trigger] self.grid()[y as int][c]) == if c + n_cells
                            < w {
                            old(self).grid()[y as int][c + n_cells]
                        } else {
                            false
                        },
                    forall|r: int, c: int|
                        0 <= r < MAX_Y && w <= c < MAX_X ==> (#[trigger] self.grid()[r][c]) == old(
                            self,
                        ).grid()[r][c],
                    forall|r: int, c: int|
                        y < r < MAX_Y && 0 <= c < MAX_X ==> (#[trigger] self.grid()[r][c]) == old(
                            self,
                        ).grid()[r][c],
                    forall|c: int|
                        x <= c < w ==> (#[trigger] self.grid()[y as int][c]) == old(
                            self,
                        ).grid()[y as int][c],
                decreases w - x,
            {
                let v: bool = if x + n_cells < w {
                    grid_read(&snapshot, x + n_cells, y)
                } else {
                    false
                };
                self.draw_pix(x, y, v);
                x = x + 1;
            }
            y = y + 1;
        }
    }

    /// Shift the pixels of the current mode's rectangle `n` rows down;
    /// vacated rows become unset, rows shifted past the bottom edge are
    /// discarded. Pixels outside the rectangle are untouched.
    pub fn scroll_down(&mut self, n: u8)
        ensures
            final(self).mode == old(self).mode,
            final(self).grid() =~~= scrolled_down(old(self).grid(), old(self).mode, n as int),
    {
        let w: usize = self.mode.get_width();
        let h: usize = self.mode.get_height();
        let n_cells: usize = n as usize;
        let snapshot: [[bool; 128]; 64] = self.screen;
        proof {
            assert(snapshot.deep_view() =~~= old(self).grid());
        }
        let mut x: usize = 0;
        while x < w
            invariant
                w == old(self).mode.width(),
                h == old(self).mode.height(),
                n_cells == n as int,
                x <= w,
                snapshot.deep_view() == old(self).grid(),
                self.mode == old(self).mode,
                forall|r: int, c: int|
                    0 <= r < h && 0 <= c < x ==> (#[trigger] self.grid()[r][c]) == if n_cells
                        <= r {
                        old(self).grid()[r - n_cells][c]
                    } else {
                        false
                    },
                forall|r: int, c: int|
                    0 <= r < MAX_Y && x <= c < MAX_X ==> (#[trigger] self.grid()[r][c]) == old(
                        self,
                    ).grid()[r][c],
                forall|r: int, c: int|
                    h <= r < MAX_Y && 0 <= c < MAX_X ==> (#[trigger] self.grid()[r][c]) == old(
                        self,
                    ).grid()[r][c],
            decreases w - x,
        {
            let mut y: usize = 0;
            while y < h
                invariant
                    w == old(self).mode.width(),
                    h == old(self).mode.height(),
                    n_cells == n as int,
                    x < w,
                    y <= h,
                    snapshot.deep_view() == old(self).grid(),
                    self.mode == old(self).mode,
                    forall|r: int, c: int|
                        0 <= r < h && 0 <= c < x ==> (#[trigger] self.grid()[r][c]) == if n_cells
                            <= r {
                            old(self).grid()[r - n_cells][c]
                        } else {
                            false
                        },
                    forall|r: int|
                        0 <= r < y ==> (#[trigger] self.grid()[r][x as int]) == if n_cells <= r {
                            old(self).grid()[r - n_cells][x as int]
                        } else {
                            false
                        },
                    forall|r: int, c: int|
                        0 <= r < MAX_Y && x < c < MAX_X ==> (#[trigger] self.grid()[r][c]) == old(
                            self,
                        ).grid()[r][c],
                    forall|r: int, c: int|
                        h <= r < MAX_Y && 0 <= c < MAX_X ==> (#[trigger] self.grid()[r][c]) == old(
                            self,
                        ).grid()[r][c],
                    forall|r: int|
                        y <= r < MAX_Y ==> (#[trigger] self.grid()[r][x as int]) == old(
                            self,
                        ).grid()[r][x as int],
                decreases h - y,
            {
                let v: bool = if y >= n_cells {
                    grid_read(&snapshot, x, y - n_cells)
                } else {
                    false
                };
                self.draw_pix(x, y, v);
                y = y + 1;
            }
            x = x + 1;
        }
    }

    /// Unset every pixel of the full backing grid, whatever the mode.
    pub fn clear_screen(&mut self)
        ensures
            final(self).mode == old(self).mode,
            final(self).grid() =~~= blank_grid(),
    {
        let mut y: usize = 0;
        while y < 64
            invariant
                y <= 64,
                self.mode == old(self).mode,
                forall|r: int, c: int|
                    0 <= r < y && 0 <= c < MAX_X ==> !self.grid()[r][c],
                forall|r: int|
                    y <= r < MAX_Y ==> self.grid()[r] == old(self).grid()[r],
            decreases 64 - y,
    {
            let mut x: usize = 0;
            while x < 128
                invariant
                    y < 64,
                    x <= 128,
                    self.mode == old(self).mode,
                    forall|r: int, c: int|
                        0 <= r < y && 0 <= c < MAX_X ==> !self.grid()[r][c],
                    forall|c: int| 0 <= c < x ==> !self.grid()[y as int][c],
                    forall|r: int|
                        y < r < MAX_Y ==> self.grid()[r] == old(self).grid()[r],
                decreases 128 - x,
            {
                self.draw_pix(x, y, false);
                x = x + 1;
            }
            y = y + 1;
        }
    }
}

} // verus!
