//! A two-dimensional grid indexed by (column, row), stored row-major. The
//! row-major enumeration order of its cells is the canonical order of the
//! wire format, so the flat storage is part of the contract, not a detail.

use vstd::prelude::*;

verus! {

/// A rectangular grid of cells, `width` columns by `height` rows, with the
/// cell at column `c`, row `r` stored at flat index `r * width + c`.
#[derive(Debug, Clone, PartialEq, Eq)]
pub struct Grid<T> {
    pub width: usize,
    pub height: usize,
    pub data: Vec<T>,
}

/// Law of the layout: a row-major flat index lies inside the grid's storage
/// whenever its column and row lie inside the grid.
pub proof fn lemma_row_major_index(w: int, h: int, c: int, r: int)
    by (nonlinear_arith)
    requires
        0 <= c < w,
        0 <= r < h,
    ensures
        0 <= r * w + c < w * h,
{
}

impl<T> Grid<T> {
    /// The storage holds exactly one cell for every (column, row) pair.
    pub open spec fn wf(&self) -> bool {
        self.data@.len() == self.width * self.height
    }

    /// The cell at column `c`, row `r`.
    pub open spec fn cell(&self, c: int, r: int) -> T {
        self.data@[r * self.width + c]
    }

    /// Builds a grid from a row-major cell sequence. `None` exactly when the
    /// sequence length disagrees with the dimensions.
    pub fn from_row_major(width: usize, height: usize, data: Vec<T>) -> (r: Option<Grid<T>>)
        ensures
            r is Some <==> data@.len() == width * height,
            r is Some ==> {
                let g = r.unwrap();
                &&& g.wf()
                &&& g.width == width
                &&& g.height == height
                &&& g.data@ == data@
            },
    {
        match width.checked_mul(height) {
            Some(n) => {
                if n == data.len() {
                    Some(Grid { width, height, data })
                } else {
                    None
                }
            },
            None => {
                let l: usize = data.len();
                proof {
                    assert(l < width * height);
                }
                None
            },
        }
    }

    /// Reads the cell at column `c`, row `r`.
    pub fn get(&self, c: usize, r: usize) -> (t: &T)
        requires
            self.wf(),
            c < self.width,
            r < self.height,
        ensures
            *t == self.cell(c as int, r as int),
    {
        let _len: usize = self.data.len();
        proof {
            lemma_row_major_index(self.width as int, self.height as int, c as int, r as int);
        }
        &self.data[r * self.width + c]
    }

    /// Replaces the cell at column `c`, row `r`, leaving every other cell and
    /// the dimensions unchanged.
    pub fn set(&mut self, c: usize, r: usize, t: T)
        requires
            old(self).wf(),
            c < old(self).width,
            r < old(self).height,
        ensures
            final(self).wf(),
            final(self).width == old(self).width,
            final(self).height == old(self).height,
            final(self).data@ == old(self).data@.update(
                r * old(self).width + c,
                t,
            ),
    {
        let _len: usize = self.data.len();
        proof {
            lemma_row_major_index(self.width as int, self.height as int, c as int, r as int);
        }
        let i: usize = r * self.width + c;
        self.data.set(i, t);
    }
}

impl<T: Copy> Grid<T> {
    /// Builds a grid of the given dimensions with every cell set to `t`.
    pub fn new_filled(width: usize, height: usize, t: T) -> (g: Option<Grid<T>>)
        ensures
            g is Some <==> width * height <= usize::MAX,
            g is Some ==> {
                let g = g.unwrap();
                &&& g.wf()
                &&& g.width == width
                &&& g.height == height
                &&& forall|i: int| 0 <= i < g.data@.len() ==> g.data@[i] == t
            },
    {
        match width.checked_mul(height) {
            Some(n) => {
                let mut data: Vec<T> = Vec::new();
                let mut i: usize = 0;
                while i < n
                    invariant
                        i <= n,
                        data@.len() == i,
                        forall|j: int| 0 <= j < i ==> data@[j] == t,
                    decreases n - i,
                {
                    data.push(t);
                    i = i + 1;
                }
                Some(Grid { width, height, data })
            },
            None => None,
        }
    }
}

} // verus!
