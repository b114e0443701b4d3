//! The frame buffer: a fixed-size grid of styled character cells.
use vstd::prelude::*;

use crate::terminal::{Sink, Style};
use crate::text::push_char;

pub mod diff;

verus! {

/// Why an operation on a frame buffer did not complete.
#[derive(Debug, Clone)]
pub enum FramebufferErr {
    /// The output sink refused a write; holds the cause it gave.
    Writing(String),
    /// The operation is not supported.
    Unimplemented,
}

/// The visual content of one grid position.
#[derive(Debug, Clone, Copy, PartialEq, Eq, Structural)]
pub enum Cell {
    Empty,
    Filled { character: char, foreground: Style, background: Style },
}

/// A `width` x `height` grid of cells, stored row-major: the cell at
/// `(x, y)` lives at index `y * width + x`.
///
/// The backing array holds exactly `width * height` cells, or none at
/// all once the grid has been cleared.
#[derive(Debug, Clone)]
pub struct Framebuffer {
    width: u16,
    height: u16,
    buf: Vec<Cell>,
}

impl Framebuffer {
    pub closed spec fn spec_width(&self) -> nat {
        self.width as nat
    }

    pub closed spec fn spec_height(&self) -> nat {
        self.height as nat
    }

    /// The backing array, row-major.
    pub closed spec fn cells(&self) -> Seq<Cell> {
        self.buf@
    }

    /// The backing array holds every cell of the grid.
    pub open spec fn is_full(&self) -> bool {
        self.cells().len() == self.spec_width() * self.spec_height()
    }

    /// The backing array is full, or empty after a clear.
    pub open spec fn wf(&self) -> bool {
        self.is_full() || self.cells().len() == 0
    }

    /// Position of `(x, y)` in the backing array.
    pub open spec fn index_of(&self, x: int, y: int) -> int {
        y * self.spec_width() + x
    }

    /// The cell at `(x, y)`, or `Empty` where the backing array has none.
    pub open spec fn cell_at(&self, x: int, y: int) -> Cell {
        let i = self.index_of(x, y);
        if 0 <= i < self.cells().len() {
            self.cells()[i]
        } else {
            Cell::Empty
        }
    }

    /// A `width` x `height` grid with every cell `Empty`.
    pub fn new(width: u16, height: u16) -> (r: Self)
        ensures
            r.spec_width() == width,
            r.spec_height() == height,
            r.cells() == Seq::new(width as nat * height as nat, |i: int| Cell::Empty),
            r.is_full(),
            r.wf(),
    {
        proof {
            let (wi, hi) = (width as int, height as int);
            assert(wi * hi <= 65535 * 65535) by (nonlinear_arith)
                requires
                    0 <= wi < 65536,
                    0 <= hi < 65536,
            ;
        }
        let capacity: usize = width as usize * height as usize;
        let mut buf: Vec<Cell> = Vec::with_capacity(capacity);
        let mut i: usize = 0;
        while i < capacity
            invariant
                i <= capacity,
                buf@ == Seq::new(i as nat, |j: int| Cell::Empty),
            decreases capacity - i,
        {
            buf.push(Cell::Empty);
            i += 1;
        }
        assert(buf@ =~= Seq::new(width as nat * height as nat, |j: int| Cell::Empty));
        Self { width, height, buf }
    }

    fn idx(&self, x: u16, y: u16) -> (i: usize)
        requires
            x < self.spec_width(),
            y < self.spec_height(),
        ensures
            i == self.index_of(x as int, y as int),
            i < self.spec_width() * self.spec_height(),
    {
        let w = self.width as usize;
        proof {
            let (xi, yi, wi, hi) = (x as int, y as int, self.width as int, self.height as int);
            assert(yi * wi + xi < wi * hi) by (nonlinear_arith)
                requires
                    0 <= xi < wi,
                    0 <= yi < hi,
            ;
            assert(yi * wi <= 65535 * 65535) by (nonlinear_arith)
                requires
                    0 <= yi < 65536,
                    0 <= wi < 65536,
            ;
        }
        y as usize * w + x as usize
    }

    /// Replaces the cell at `(x, y)`; no other cell changes.
    pub fn set(&mut self, x: u16, y: u16, cell: Cell)
        requires
            old(self).is_full(),
            x < old(self).spec_width(),
            y < old(self).spec_height(),
        ensures
            final(self).spec_width() == old(self).spec_width(),
            final(self).spec_height() == old(self).spec_height(),
            final(self).cells() == old(self).cells().update(
                old(self).index_of(x as int, y as int),
                cell,
            ),
            final(self).is_full(),
            final(self).wf(),
    {
        let i = self.idx(x, y);
        self.buf.set(i, cell);
    }

    /// The cell at `(x, y)`; `Empty` where the grid has been cleared.
    pub fn get(&self, x: u16, y: u16) -> (r: &Cell)
        requires
            self.wf(),
            x < self.spec_width(),
            y < self.spec_height(),
        ensures
            *r == self.cell_at(x as int, y as int),
    {
        let i = self.idx(x, y);
        if i < self.buf.len() {
            &self.buf[i]
        } else {
            &EMPTY
        }
    }

    /// Resizing a grid is not supported: always fails, and leaves the grid
    /// as it was.
    pub fn resize(&mut self, _x: u16, _y: u16) -> (r: Result<(), FramebufferErr>)
        ensures
            r matches Err(FramebufferErr::Unimplemented),
            *final(self) == *old(self),
    {
        Err(FramebufferErr::Unimplemented)
    }

    /// Empties the backing array. The dimensions stay; the capacity becomes
    /// zero.
    pub fn clear(&mut self)
        ensures
            final(self).spec_width() == old(self).spec_width(),
            final(self).spec_height() == old(self).spec_height(),
            final(self).cells().len() == 0,
            final(self).wf(),
    {
        self.buf.clear()
    }

    /// The number of cells the backing array holds: `width * height`, or
    /// zero after a clear.
    pub fn capacity(&self) -> (r: usize)
        ensures
            r == self.cells().len(),
    {
        self.buf.len()
    }

    pub fn width(&self) -> (r: u16)
        ensures
            r == self.spec_width(),
    {
        self.width
    }

    pub fn height(&self) -> (r: u16)
        ensures
            r == self.spec_height(),
    {
        self.height
    }
}

const EMPTY: Cell = Cell::Empty;

impl Framebuffer {
    /// Walks the grid in row-major order, starting at `(0, 0)`.
    pub fn iter(&self) -> (it: FramebufferIterator<'_>)
        requires
            self.wf(),
        ensures
            it.grid() == *self,
            it.position() == 0,
            it.wf(),
    {
        FramebufferIterator::new(self)
    }
}

/// A row-major walk over a grid: `((0, 0), c)`, `((1, 0), c)`, ...,
/// `((width - 1, 0), c)`, `((0, 1), c)`, ...; one item per cell of the
/// backing array.
pub struct FramebufferIterator<'a> {
    fb: &'a Framebuffer,
    idx: usize,
}

impl<'a> FramebufferIterator<'a> {
    /// The grid walked over.
    pub closed spec fn grid(&self) -> Framebuffer {
        *self.fb
    }

    /// How many items have been handed out.
    pub closed spec fn position(&self) -> nat {
        self.idx as nat
    }

    pub open spec fn wf(&self) -> bool {
        self.grid().wf() && self.position() <= self.grid().cells().len()
    }

    fn new(fb: &'a Framebuffer) -> (it: Self)
        requires
            fb.wf(),
        ensures
            it.grid() == *fb,
            it.position() == 0,
            it.wf(),
    {
        Self { fb: fb, idx: 0 }
    }

    /// The next position and its cell, or `None` once every cell of the
    /// backing array has been handed out.
    pub fn next(&mut self) -> (r: Option<((u16, u16), &'a Cell)>)
        requires
            old(self).wf(),
        ensures
            final(self).wf(),
            final(self).grid() == old(self).grid(),
            ({
                let g = old(self).grid();
                let p = old(self).position();
                if p < g.cells().len() {
                    &&& final(self).position() == p + 1
                    &&& r matches Some(((x, y), c)) && x == p % g.spec_width() && y == p
                        / g.spec_width() && *c == g.cells()[p as int]
                } else {
                    &&& final(self).position() == p
                    &&& r is None
                }
            }),
    {
        if self.idx == self.fb.capacity() {
            return None;
        }
        let w = self.fb.width() as usize;
        proof {
            let (i, wi, hi) = (self.idx as int, self.fb.spec_width() as int, self.fb.spec_height() as int);
            assert(0 <= i < wi * hi);
            assert(wi > 0) by (nonlinear_arith)
                requires
                    0 <= i < wi * hi,
                    0 <= hi,
            ;
            assert(i / wi < hi) by (nonlinear_arith)
                requires
                    0 <= i < wi * hi,
                    wi > 0,
            ;
            vstd::arithmetic::div_mod::lemma_fundamental_div_mod(i, wi);
            assert(i % wi < wi) by (nonlinear_arith)
                requires
                    wi > 0,
            ;
        }
        let x = (self.idx % w) as u16;
        let y = (self.idx / w) as u16;
        let cell = self.fb.get(x, y);
        self.idx += 1;
        Some(((x, y), cell))
    }
}

/// The character that stands for a cell in a plain-text dump: the cell's
/// character, or a space for an empty cell.
pub open spec fn cell_char(c: Cell) -> char {
    match c {
        Cell::Empty => ' ',
        Cell::Filled { character, .. } => character,
    }
}

/// The plain-text dump of the first `n` cells of a row-major array of
/// width `w`: one character per cell, and a newline after every `w`-th.
pub open spec fn grid_text(cells: Seq<Cell>, w: nat, n: nat) -> Seq<char>
    decreases n,
{
    if n == 0 {
        Seq::empty()
    } else {
        let line = grid_text(cells, w, (n - 1) as nat).push(cell_char(cells[n - 1]));
        if n % w == 0 {
            line.push('\n')
        } else {
            line
        }
    }
}

/// The grid as plain text: one line per row, a space for each empty cell.
pub fn render_text(fb: &Framebuffer) -> (r: String)
    requires
        fb.wf(),
    ensures
        r@ == grid_text(fb.cells(), fb.spec_width(), fb.cells().len()),
{
    let mut r = String::new();
    let mut it = fb.iter();
    let w = fb.width() as usize;
    loop
        invariant
            it.wf(),
            it.grid() == *fb,
            fb.wf(),
            w == fb.spec_width(),
            r@ == grid_text(fb.cells(), fb.spec_width(), it.position()),
        decreases fb.cells().len() - it.position(),
    {
        match it.next() {
            None => {
                return r;
            },
            Some((_, cell)) => {
                let c = match cell {
                    Cell::Empty => ' ',
                    Cell::Filled { character, .. } => *character,
                };
                push_char(&mut r, c);
                proof {
                    assert(w > 0);
                }
                if it.idx % w == 0 {
                    push_char(&mut r, '\n');
                }
            },
        }
    }
}

/// Writes the grid's plain-text form (see [`render_text`]) to `out` in a
/// single write.
pub fn render<W: Sink>(fb: &Framebuffer, out: &mut W) -> (r: Result<(), FramebufferErr>)
    requires
        fb.wf(),
    ensures
        r matches Err(e) ==> e is Writing,
{
    let text = render_text(fb);
    match out.write_str(text.as_str()) {
        Ok(()) => Ok(()),
        Err(cause) => Err(FramebufferErr::Writing(cause)),
    }
}

} // verus!
