//! Differences between two grids of the same size, cell by cell.
use vstd::prelude::*;

use super::{Cell, Framebuffer};

verus! {

/// One cell transition at `(x, y)`.
#[derive(Debug, Clone, Copy, PartialEq, Eq, Structural)]
pub enum Changeset {
    /// The cell was empty and is now filled with `cell`.
    Add { x: u16, y: u16, cell: Cell },
    /// The cell was filled and is now empty.
    Remove { x: u16, y: u16 },
    /// The cell stays filled, with new content `cell`.
    Update { x: u16, y: u16, cell: Cell },
}

pub type Changesets = Vec<Changeset>;

impl Changeset {
    pub open spec fn spec_x(self) -> u16 {
        match self {
            Changeset::Add { x, .. } => x,
            Changeset::Remove { x, .. } => x,
            Changeset::Update { x, .. } => x,
        }
    }

    pub open spec fn spec_y(self) -> u16 {
        match self {
            Changeset::Add { y, .. } => y,
            Changeset::Remove { y, .. } => y,
            Changeset::Update { y, .. } => y,
        }
    }

    /// Position of the changed cell in a row-major array of width `w`.
    pub open spec fn scan_index(self, w: nat) -> int {
        self.spec_y() * w + self.spec_x()
    }
}

/// The event for one position whose cell goes from `a` to `b`, if any.
pub open spec fn change_at(a: Cell, b: Cell, x: u16, y: u16) -> Option<Changeset> {
    match a {
        Cell::Empty => match b {
            Cell::Empty => None,
            Cell::Filled { .. } => Some(Changeset::Add { x, y, cell: b }),
        },
        Cell::Filled { .. } => match b {
            Cell::Empty => Some(Changeset::Remove { x, y }),
            Cell::Filled { .. } => if a == b {
                None
            } else {
                Some(Changeset::Update { x, y, cell: b })
            },
        },
    }
}

/// The events for the first `n` positions of two row-major arrays of
/// width `w`, in scan order.
pub open spec fn diff_cells(a: Seq<Cell>, b: Seq<Cell>, w: nat, n: nat) -> Seq<Changeset>
    decreases n,
{
    if n == 0 {
        Seq::empty()
    } else {
        let i = n - 1;
        let prev = diff_cells(a, b, w, i as nat);
        match change_at(a[i], b[i], (i % w as int) as u16, (i / w as int) as u16) {
            Some(c) => prev.push(c),
            None => prev,
        }
    }
}

/// The events that take grid `a` to grid `b`: the two grids are walked
/// together, as far as both backing arrays reach.
pub open spec fn grid_diff(a: Framebuffer, b: Framebuffer) -> Seq<Changeset> {
    let n = if a.cells().len() <= b.cells().len() {
        a.cells().len()
    } else {
        b.cells().len()
    };
    diff_cells(a.cells(), b.cells(), a.spec_width(), n)
}

/// The changes from `a` to `b`, in row-major order: `Add` where a cell
/// became filled, `Remove` where it became empty, `Update` where a filled
/// cell changed. Neither grid is modified.
pub fn compare(a: &Framebuffer, b: &Framebuffer) -> (r: Changesets)
    requires
        a.wf(),
        b.wf(),
        a.spec_width() == b.spec_width(),
        a.spec_height() == b.spec_height(),
    ensures
        r@ == grid_diff(*a, *b),
{
    let mut changesets: Changesets = Vec::new();
    let mut ia = a.iter();
    let mut ib = b.iter();
    let ghost n: nat = if a.cells().len() <= b.cells().len() {
        a.cells().len()
    } else {
        b.cells().len()
    };
    loop
        invariant
            ia.wf(),
            ib.wf(),
            ia.grid() == *a,
            ib.grid() == *b,
            a.spec_width() == b.spec_width(),
            ia.position() == ib.position(),
            ia.position() <= n,
            n == a.cells().len() || n == b.cells().len(),
            n <= a.cells().len(),
            n <= b.cells().len(),
            changesets@ == diff_cells(a.cells(), b.cells(), a.spec_width(), ia.position()),
        decreases n - ia.position(),
    {
        let next_a = ia.next();
        let next_b = ib.next();
        match (next_a, next_b) {
            (Some(((x, y), cell_a)), Some((_, cell_b))) => {
                let cell_a = *cell_a;
                let cell_b = *cell_b;
                match cell_a {
                    Cell::Empty => match cell_b {
                        Cell::Empty => {},
                        Cell::Filled { .. } => {
                            changesets.push(Changeset::Add { x, y, cell: cell_b });
                        },
                    },
                    Cell::Filled { .. } => match cell_b {
                        Cell::Empty => {
                            changesets.push(Changeset::Remove { x, y });
                        },
                        Cell::Filled { .. } => {
                            if cell_a != cell_b {
                                changesets.push(Changeset::Update { x, y, cell: cell_b });
                            }
                        },
                    },
                }
            },
            _ => {
                return changesets;
            },
        }
    }
}

/// A row-major array of width `w` after one change has been drawn on it.
pub open spec fn apply_change(cells: Seq<Cell>, w: nat, c: Changeset) -> Seq<Cell> {
    let i = c.scan_index(w);
    match c {
        Changeset::Add { cell, .. } => cells.update(i, cell),
        Changeset::Remove { .. } => cells.update(i, Cell::Empty),
        Changeset::Update { cell, .. } => cells.update(i, cell),
    }
}

/// A row-major array of width `w` after the changes have been drawn on it,
/// first to last.
pub open spec fn apply_changes(cells: Seq<Cell>, w: nat, cs: Seq<Changeset>) -> Seq<Cell>
    decreases cs.len(),
{
    if cs.len() == 0 {
        cells
    } else {
        apply_change(apply_changes(cells, w, cs.drop_last()), w, cs.last())
    }
}

proof fn lemma_scan_position(i: int, w: int, h: int)
    requires
        0 <= i < w * h,
        0 <= h,
        w <= 65535,
        h <= 65535,
    ensures
        w > 0,
        0 <= i % w < w,
        0 <= i / w < h,
        ((i / w) as u16) as int * w + ((i % w) as u16) as int == i,
{
    assert(w > 0) by (nonlinear_arith)
        requires
            0 <= i < w * h,
            0 <= h,
    ;
    assert(i / w < h) by (nonlinear_arith)
        requires
            0 <= i < w * h,
            w > 0,
    ;
    vstd::arithmetic::div_mod::lemma_fundamental_div_mod(i, w);
    assert(0 <= i % w < w) by (nonlinear_arith)
        requires
            w > 0,
    ;
    assert(0 <= i / w) by (nonlinear_arith)
        requires
            w > 0,
            i >= 0,
    ;
    assert(((i / w) as u16) as int == i / w);
    assert(((i % w) as u16) as int == i % w);
    assert((i / w) * w == w * (i / w)) by (nonlinear_arith);
}

proof fn lemma_change_at_position(a: Cell, b: Cell, x: u16, y: u16)
    ensures
        change_at(a, b, x, y) matches Some(c) ==> c.spec_x() == x && c.spec_y() == y,
{
}

proof fn lemma_diff_cells_replay(a: Seq<Cell>, b: Seq<Cell>, w: nat, h: nat, n: nat)
    requires
        a.len() == w * h,
        b.len() == w * h,
        w <= 65535,
        h <= 65535,
        n <= a.len(),
    ensures
        ({
            let r = apply_changes(a, w, diff_cells(a, b, w, n));
            &&& r.len() == a.len()
            &&& forall|i: int| 0 <= i < a.len() ==> #[trigger] r[i] == if i < n {
                b[i]
            } else {
                a[i]
            }
        }),
    decreases n,
{
    if n > 0 {
        let i = n - 1;
        lemma_diff_cells_replay(a, b, w, h, i as nat);
        let prev = diff_cells(a, b, w, i as nat);
        lemma_scan_position(i, w as int, h as int);
        match change_at(a[i], b[i], (i % w as int) as u16, (i / w as int) as u16) {
            Some(c) => {
                assert(prev.push(c).drop_last() =~= prev);
            },
            None => {},
        }
    }
}

/// Drawing the changes from `a` to `b` onto `a`, in order, reproduces `b`
/// cell for cell. (When exactly one of the two grids has been cleared the
/// walk stops at once and nothing is drawn, so both backing arrays must
/// be the same length.)
pub proof fn lemma_apply_diff_reproduces(a: Framebuffer, b: Framebuffer)
    requires
        a.wf(),
        b.wf(),
        a.spec_width() == b.spec_width(),
        a.spec_height() == b.spec_height(),
        a.cells().len() == b.cells().len(),
    ensures
        apply_changes(a.cells(), a.spec_width(), grid_diff(a, b)) == b.cells(),
{
    if a.cells().len() == 0 {
        assert(a.cells() =~= b.cells());
    } else {
        lemma_diff_cells_replay(
            a.cells(),
            b.cells(),
            a.spec_width(),
            a.spec_height(),
            a.cells().len(),
        );
        assert(apply_changes(a.cells(), a.spec_width(), grid_diff(a, b)) =~= b.cells());
    }
}

proof fn lemma_diff_cells_equal(a: Seq<Cell>, w: nat, n: nat)
    requires
        n <= a.len(),
    ensures
        diff_cells(a, a, w, n).len() == 0,
    decreases n,
{
    if n > 0 {
        lemma_diff_cells_equal(a, w, (n - 1) as nat);
    }
}

/// A grid compared with an exact copy of itself yields no changes.
pub proof fn lemma_diff_of_copy_is_empty(a: Framebuffer, b: Framebuffer)
    requires
        a.wf(),
        b.spec_width() == a.spec_width(),
        b.spec_height() == a.spec_height(),
        b.cells() == a.cells(),
    ensures
        grid_diff(a, b) == Seq::<Changeset>::empty(),
{
    lemma_diff_cells_equal(a.cells(), a.spec_width(), a.cells().len());
    assert(grid_diff(a, b) =~= Seq::<Changeset>::empty());
}

proof fn lemma_diff_cells_ordered(a: Seq<Cell>, b: Seq<Cell>, w: nat, h: nat, n: nat)
    requires
        a.len() == w * h,
        b.len() == w * h,
        w <= 65535,
        h <= 65535,
        n <= a.len(),
    ensures
        ({
            let d = diff_cells(a, b, w, n);
            &&& forall|j: int| 0 <= j < d.len() ==> 0 <= #[trigger] d[j].scan_index(w) < n
            &&& forall|j: int, k: int|
                0 <= j < k < d.len() ==> #[trigger] d[j].scan_index(w) < #[trigger] d[k].scan_index(w)
        }),
    decreases n,
{
    if n > 0 {
        let i = n - 1;
        lemma_diff_cells_ordered(a, b, w, h, i as nat);
        lemma_scan_position(i, w as int, h as int);
        let x = (i % w as int) as u16;
        let y = (i / w as int) as u16;
        lemma_change_at_position(a[i], b[i], x, y);
        let prev = diff_cells(a, b, w, i as nat);
        if let Some(c) = change_at(a[i], b[i], x, y) {
            assert(c.scan_index(w) == i);
            let d = prev.push(c);
            assert forall|j: int| 0 <= j < d.len() implies 0 <= #[trigger] d[j].scan_index(w) < n by {
                if j < prev.len() {
                    assert(d[j] == prev[j]);
                }
            }
            assert forall|j: int, k: int|
                0 <= j < k < d.len() implies #[trigger] d[j].scan_index(w) < #[trigger] d[k].scan_index(w) by {
                assert(d[j] == prev[j]);
                if k < prev.len() {
                    assert(d[k] == prev[k]);
                }
            }
        }
    }
}

/// The changes come in row-major scan order: each lies at a position of
/// the walk, and their positions `y * width + x` strictly increase.
pub proof fn lemma_diff_in_scan_order(a: Framebuffer, b: Framebuffer)
    requires
        a.wf(),
        b.wf(),
        a.spec_width() == b.spec_width(),
        a.spec_height() == b.spec_height(),
    ensures
        ({
            let d = grid_diff(a, b);
            let w = a.spec_width();
            &&& forall|j: int| 0 <= j < d.len() ==> {
                &&& #[trigger] d[j].spec_x() < w
                &&& d[j].spec_y() < a.spec_height()
            }
            &&& forall|j: int, k: int|
                0 <= j < k < d.len() ==> #[trigger] d[j].scan_index(w) < #[trigger] d[k].scan_index(w)
        }),
{
    let w = a.spec_width();
    let h = a.spec_height();
    let n = if a.cells().len() <= b.cells().len() {
        a.cells().len()
    } else {
        b.cells().len()
    };
    if n > 0 {
        lemma_diff_cells_ordered(a.cells(), b.cells(), w, h, n);
        lemma_diff_cells_positions(a.cells(), b.cells(), w, h, n);
    }
}

proof fn lemma_diff_cells_positions(a: Seq<Cell>, b: Seq<Cell>, w: nat, h: nat, n: nat)
    requires
        a.len() == w * h,
        b.len() == w * h,
        w <= 65535,
        h <= 65535,
        n <= a.len(),
    ensures
        forall|j: int| 0 <= j < diff_cells(a, b, w, n).len() ==> {
            &&& #[trigger] diff_cells(a, b, w, n)[j].spec_x() < w
            &&& diff_cells(a, b, w, n)[j].spec_y() < h
        },
    decreases n,
{
    if n > 0 {
        let i = n - 1;
        lemma_diff_cells_positions(a, b, w, h, i as nat);
        lemma_scan_position(i, w as int, h as int);
        let x = (i % w as int) as u16;
        let y = (i / w as int) as u16;
        lemma_change_at_position(a[i], b[i], x, y);
        let prev = diff_cells(a, b, w, i as nat);
        if let Some(c) = change_at(a[i], b[i], x, y) {
            let d = prev.push(c);
            assert forall|j: int| 0 <= j < d.len() implies {
                &&& #[trigger] d[j].spec_x() < w
                &&& d[j].spec_y() < h
            } by {
                if j < prev.len() {
                    assert(d[j] == prev[j]);
                }
            }
        }
    }
}

} // verus!
