//! Pattern matrices: rows of float bit patterns sharing one width.
use vstd::prelude::*;

verus! {

/// What can go wrong in the associative memory and its store.
#[derive(Debug, Clone, Copy, PartialEq, Eq, Structural)]
pub enum MemoryError {
    /// No pattern is stored, so a query has nothing to converge toward.
    EmptyMemory,
    /// Two vectors that must share a dimensionality do not.
    DimensionMismatch,
    /// The update did not reach a fixed point within the iteration cap.
    NotConverged,
    /// The update produced a value that is not a number.
    NotANumber,
}

/// True when every row of `rows` has exactly `cols` entries.
pub open spec fn uniform(rows: Seq<Seq<u32>>, cols: nat) -> bool {
    forall|i: int| 0 <= i < rows.len() ==> #[trigger] rows[i].len() == cols
}

/// The width shared by a non-empty list of rows: that of the first row.
pub open spec fn width_of(rows: Seq<Seq<u32>>) -> nat {
    if rows.len() == 0 { 0 } else { rows[0].len() }
}

/// An `n x d` matrix of float bit patterns, stored row by row.
pub struct Matrix {
    rows: Vec<Vec<u32>>,
    cols: usize,
}

impl View for Matrix {
    type V = Seq<Seq<u32>>;

    closed spec fn view(&self) -> Seq<Seq<u32>> {
        self.rows@.map_values(|r: Vec<u32>| r@)
    }
}

impl Matrix {
    /// Number of columns: the dimensionality of every row.
    pub closed spec fn width(&self) -> nat {
        self.cols as nat
    }

    /// Every row has `width()` entries, and a matrix without rows has width 0.
    pub closed spec fn wf(&self) -> bool {
        &&& uniform(self@, self.cols as nat)
        &&& (self.rows@.len() == 0 ==> self.cols == 0)
    }

    /// The matrix with no rows.
    pub fn empty() -> (m: Matrix)
        ensures
            m.wf(),
            m@ == Seq::<Seq<u32>>::empty(),
            m.width() == 0,
    {
        let m = Matrix { rows: Vec::new(), cols: 0 };
        assert(m@ =~= Seq::<Seq<u32>>::empty());
        m
    }

    /// Builds a matrix from its rows; every row must have the width of the first.
    pub fn from_rows(rows: Vec<Vec<u32>>) -> (r: Result<Matrix, MemoryError>)
        ensures
            uniform(rows@.map_values(|v: Vec<u32>| v@), width_of(rows@.map_values(|v: Vec<u32>| v@)))
                <==> r is Ok,
            r is Err ==> r == Err::<Matrix, MemoryError>(MemoryError::DimensionMismatch),
            r matches Ok(m) ==> m.wf() && m@ == rows@.map_values(|v: Vec<u32>| v@)
                && m.width() == width_of(m@),
    {
        let ghost view = rows@.map_values(|v: Vec<u32>| v@);
        let cols: usize = if rows.len() == 0 { 0 } else { rows[0].len() };
        let mut i: usize = 0;
        while i < rows.len()
            invariant
                view == rows@.map_values(|v: Vec<u32>| v@),
                cols == width_of(view),
                i <= rows.len(),
                forall|k: int| 0 <= k < i ==> #[trigger] view[k].len() == cols,
            decreases rows.len() - i,
        {
            if rows[i].len() != cols {
                assert(view[i as int].len() != cols);
                return Err(MemoryError::DimensionMismatch);
            }
            i = i + 1;
        }
        let m = Matrix { rows, cols };
        Ok(m)
    }

    /// Number of rows.
    pub fn n_rows(&self) -> (n: usize)
        ensures
            n == self@.len(),
    {
        self.rows.len()
    }

    /// Number of columns.
    pub fn n_cols(&self) -> (d: usize)
        ensures
            d == self.width(),
    {
        self.cols
    }

    /// A copy of row `i`.
    pub fn row(&self, i: usize) -> (r: Vec<u32>)
        requires
            i < self@.len(),
        ensures
            r@ == self@[i as int],
    {
        let src = &self.rows[i];
        let mut r: Vec<u32> = Vec::with_capacity(src.len());
        let mut j: usize = 0;
        while j < src.len()
            invariant
                j <= src@.len(),
                r@ == src@.subrange(0, j as int),
            decreases src.len() - j,
        {
            r.push(src[j]);
            j = j + 1;
            assert(r@ =~= src@.subrange(0, j as int));
        }
        assert(r@ =~= src@);
        r
    }

    /// A copy of every row, in order.
    pub fn to_rows(&self) -> (r: Vec<Vec<u32>>)
        ensures
            r@.map_values(|v: Vec<u32>| v@) == self@,
    {
        let mut r: Vec<Vec<u32>> = Vec::with_capacity(self.rows.len());
        let mut i: usize = 0;
        while i < self.rows.len()
            invariant
                i <= self@.len(),
                r@.len() == i,
                forall|k: int| 0 <= k < i ==> #[trigger] r@[k]@ == self@[k],
            decreases self@.len() - i,
        {
            let row = self.row(i);
            r.push(row);
            i = i + 1;
        }
        assert(r@.map_values(|v: Vec<u32>| v@) =~= self@);
        r
    }
}

} // verus!
