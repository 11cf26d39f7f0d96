//! Rectangular matrices of scalars: their shape and the rearrangements that
//! need no arithmetic.

pub mod transformation;

use vstd::prelude::*;
use crate::scalar::{Scalar, ONE_BITS};

verus! {

/// An N x M matrix of scalars, stored row by row.
#[derive(Debug)]
pub struct Matrix {
    m: Vec<Vec<Scalar>>,
    cols: usize,
}

/// The entries of the 4 x 4 identity matrix: the number one on the diagonal
/// and positive zero elsewhere.
pub open spec fn identity_grid() -> Seq<Seq<Scalar>> {
    let i = Scalar { bits: ONE_BITS };
    let o = Scalar { bits: 0 };
    seq![seq![i, o, o, o], seq![o, i, o, o], seq![o, o, i, o], seq![o, o, o, i]]
}

/// Whether every line of `grid` has `cols` entries.
pub open spec fn rectangular(grid: Seq<Seq<Scalar>>, cols: nat) -> bool {
    forall|r: int| 0 <= r < grid.len() ==> (#[trigger] grid[r]).len() == cols
}

/// The grid with rows and columns exchanged: `cols` lines, the line `c` made
/// of the entries in column `c` of `grid` from the top down.
pub open spec fn transposed(grid: Seq<Seq<Scalar>>, cols: nat) -> Seq<Seq<Scalar>> {
    Seq::new(cols, |c: int| Seq::new(grid.len(), |r: int| grid[r][c]))
}

/// Transposing twice gives a grid back: the grid of `rows` lines with
/// `cols` entries each is the transpose of its transpose.
pub proof fn lemma_transposed_twice(grid: Seq<Seq<Scalar>>, cols: nat)
    requires
        rectangular(grid, cols),
    ensures
        transposed(transposed(grid, cols), grid.len()) == grid,
{
    let back = transposed(transposed(grid, cols), grid.len());
    assert(back.len() == grid.len());
    assert forall|r: int| 0 <= r < grid.len() implies #[trigger] back[r] == grid[r] by {
        assert(back[r] =~= grid[r]);
    }
    assert(back =~= grid);
}

/// The lines of `v` as sequences.
pub open spec fn lines(v: Seq<Vec<Scalar>>) -> Seq<Seq<Scalar>> {
    Seq::new(v.len(), |r: int| v[r]@)
}

impl View for Matrix {
    type V = Seq<Seq<Scalar>>;

    /// The entries, row by row.
    closed spec fn view(&self) -> Seq<Seq<Scalar>> {
        lines(self.m@)
    }
}

impl Matrix {
    #[verifier::type_invariant]
    spec fn shaped(&self) -> bool {
        forall|r: int| 0 <= r < self.m@.len() ==> (#[trigger] self.m@[r]).len() == self.cols
    }

    /// The number of rows.
    pub closed spec fn spec_rows(&self) -> usize {
        self.m@.len() as usize
    }

    /// The number of columns.
    pub closed spec fn spec_cols(&self) -> usize {
        self.cols
    }

    /// The number of rows, which is the number of lines of the view.
    #[verifier::when_used_as_spec(spec_rows)]
    pub fn rows(&self) -> (r: usize)
        ensures
            r == self.rows(),
            self@.len() == r,
    {
        self.m.len()
    }

    /// The number of columns, which is the length of every line of the view.
    #[verifier::when_used_as_spec(spec_cols)]
    pub fn cols(&self) -> (r: usize)
        ensures
            r == self.cols(),
            rectangular(self@, r as nat),
    {
        proof {
            use_type_invariant(self);
        }
        self.cols
    }

    /// A matrix of the given shape with positive zero in every cell.
    pub fn new(rows: usize, cols: usize) -> (r: Self)
        ensures
            r.rows() == rows,
            r.cols() == cols,
            r@.len() == rows,
            forall|i: int, j: int| 0 <= i < rows && 0 <= j < cols ==> (#[trigger] r@[i][j]).bits == 0,
            rectangular(r@, cols as nat),
    {
        let mut m: Vec<Vec<Scalar>> = Vec::new();
        let mut i: usize = 0;
        while i < rows
            invariant
                i <= rows,
                m@.len() == i,
                forall|a: int| 0 <= a < i ==> (#[trigger] m@[a]).len() == cols,
                forall|a: int, b: int| 0 <= a < i && 0 <= b < cols ==> (#[trigger] m@[a]@[b]).bits == 0,
            decreases rows - i,
        {
            let mut line: Vec<Scalar> = Vec::new();
            let mut j: usize = 0;
            while j < cols
                invariant
                    j <= cols,
                    line@.len() == j,
                    forall|b: int| 0 <= b < j ==> (#[trigger] line@[b]).bits == 0,
                decreases cols - j,
            {
                line.push(Scalar::zero());
                j = j + 1;
            }
            m.push(line);
            i = i + 1;
        }
        Matrix { m, cols }
    }

    /// The matrix with the given lines.  There is none if there is no line
    /// or if the lines differ in length.
    pub fn from_vec(v: Vec<Vec<Scalar>>) -> (r: Option<Matrix>)
        ensures
            r.is_some() <==> v@.len() > 0 && forall|i: int| 0 <= i < v@.len() ==> (#[trigger] v@[i]).len() == v@[0].len(),
            r matches Some(m) ==> {
                &&& m@ == lines(v@)
                &&& m.rows() == v@.len()
                &&& m.cols() == v@[0].len()
            },
    {
        if v.len() == 0 {
            return None;
        }
        let row_len = v[0].len();
        let mut i: usize = 0;
        while i < v.len()
            invariant
                i <= v.len(),
                v@.len() > 0,
                row_len == v@[0].len(),
                forall|a: int| 0 <= a < i ==> (#[trigger] v@[a]).len() == row_len,
            decreases v.len() - i,
        {
            if v[i].len() != row_len {
                return None;
            }
            i = i + 1;
        }
        Some(Matrix { m: v, cols: row_len })
    }

    /// The entry in row `r` and column `c`.
    pub fn get(&self, r: usize, c: usize) -> (x: Scalar)
        requires
            r < self.rows(),
            c < self.cols(),
        ensures
            x == self@[r as int][c as int],
    {
        proof {
            use_type_invariant(self);
        }
        self.m[r][c]
    }

    /// The row `r`.
    pub fn index(&self, r: usize) -> (line: &Vec<Scalar>)
        requires
            r < self.rows(),
        ensures
            line@ == self@[r as int],
            line@.len() == self.cols(),
    {
        proof {
            use_type_invariant(self);
        }
        &self.m[r]
    }

    /// Puts `value` in row `r` and column `c`.
    pub fn set(&mut self, r: usize, c: usize, value: Scalar)
        requires
            r < old(self).rows(),
            c < old(self).cols(),
        ensures
            final(self).rows() == old(self).rows(),
            final(self).cols() == old(self).cols(),
            final(self)@ == old(self)@.update(r as int, old(self)@[r as int].update(c as int, value)),
    {
        proof {
            use_type_invariant(&*self);
        }
        // The lines are taken out while one of them is changed, so that the
        // matrix is rectangular at every moment.
        let mut m: Vec<Vec<Scalar>> = Vec::new();
        core::mem::swap(&mut self.m, &mut m);
        m[r][c] = value;
        core::mem::swap(&mut self.m, &mut m);
        assert(self@ =~= old(self)@.update(r as int, old(self)@[r as int].update(c as int, value)));
    }

    /// The matrix with rows and columns exchanged: what stood in row `r` and
    /// column `c` stands in row `c` and column `r`.
    pub fn transpose(&self) -> (t: Self)
        ensures
            t.rows() == self.cols(),
            t.cols() == self.rows(),
            t@ == transposed(self@, self.cols() as nat),
    {
        proof {
            use_type_invariant(self);
        }
        let rows = self.m.len();
        let cols = self.cols;
        let mut m: Vec<Vec<Scalar>> = Vec::new();
        let mut c: usize = 0;
        while c < cols
            invariant
                c <= cols,
                rows == self.m@.len(),
                cols == self.cols,
                forall|a: int| 0 <= a < rows ==> (#[trigger] self.m@[a]).len() == self.cols,
                m@.len() == c,
                forall|b: int| 0 <= b < c ==> (#[trigger] m@[b]).len() == rows,
                forall|a: int, b: int| 0 <= a < rows && 0 <= b < c ==> #[trigger] m@[b]@[a] == self.m@[a]@[b],
            decreases cols - c,
        {
            let mut line: Vec<Scalar> = Vec::new();
            let mut r: usize = 0;
            while r < rows
                invariant
                    r <= rows,
                    c < cols,
                    rows == self.m@.len(),
                    cols == self.cols,
                    forall|a: int| 0 <= a < rows ==> (#[trigger] self.m@[a]).len() == self.cols,
                    line@.len() == r,
                    forall|a: int| 0 <= a < r ==> #[trigger] line@[a] == self.m@[a]@[c as int],
                decreases rows - r,
            {
                line.push(self.m[r][c]);
                r = r + 1;
            }
            m.push(line);
            c = c + 1;
        }
        let t = Matrix { m, cols: rows };
        assert(t@ =~~= transposed(self@, self.cols() as nat));
        t
    }

    /// The matrix without row `row` and without column `col`.
    pub fn submatrix(&self, row: usize, col: usize) -> (s: Self)
        requires
            row < self.rows(),
            col < self.cols(),
        ensures
            s.rows() == self.rows() - 1,
            s.cols() == self.cols() - 1,
            s@ == self@.remove(row as int).map_values(|line: Seq<Scalar>| line.remove(col as int)),
    {
        proof {
            use_type_invariant(self);
        }
        let rows = self.m.len();
        let cols = self.cols;
        let ghost cut = |line: Seq<Scalar>| line.remove(col as int);
        let mut m: Vec<Vec<Scalar>> = Vec::new();
        let mut r: usize = 0;
        while r < rows
            invariant
                r <= rows,
                row < rows,
                col < cols,
                rows == self.m@.len(),
                cols == self.cols,
                forall|a: int| 0 <= a < rows ==> (#[trigger] self.m@[a]).len() == cols,
                m@.len() == (if r <= row { r as int } else { r - 1 }),
                forall|a: int| 0 <= a < m@.len() ==> (#[trigger] m@[a]).len() == cols - 1,
                forall|a: int| 0 <= a < m@.len() ==> (#[trigger] m@[a])@ == self.m@[if a < row { a } else { a + 1 }]@.remove(col as int),
            decreases rows - r,
        {
            if r != row {
                let mut line: Vec<Scalar> = Vec::new();
                let mut c: usize = 0;
                while c < cols
                    invariant
                        c <= cols,
                        col < cols,
                        r < rows,
                        rows == self.m@.len(),
                        self.m@[r as int].len() == cols,
                        line@.len() == (if c <= col { c as int } else { c - 1 }),
                        forall|b: int| 0 <= b < line@.len() ==> #[trigger] line@[b] == self.m@[r as int]@[if b < col { b } else { b + 1 }],
                    decreases cols - c,
                {
                    if c != col {
                        line.push(self.m[r][c]);
                    }
                    c = c + 1;
                }
                assert(line@ =~= self.m@[r as int]@.remove(col as int));
                m.push(line);
            }
            r = r + 1;
        }
        let s = Matrix { m, cols: cols - 1 };
        assert(s@ =~= self@.remove(row as int).map_values(|line: Seq<Scalar>| line.remove(col as int)));
        s
    }

    /// The 4 x 4 identity matrix.
    pub fn identity() -> (r: Self)
        ensures
            r.rows() == 4,
            r.cols() == 4,
            r@ == identity_grid(),
    {
        let i = Scalar::one();
        let o = Scalar::zero();
        let m = vec![vec![i, o, o, o], vec![o, i, o, o], vec![o, o, i, o], vec![o, o, o, i]];
        let r = Matrix { m, cols: 4 };
        assert(r@ =~~= identity_grid());
        r
    }

    /// The cofactor of the entry in row `row` and column `col`, given its
    /// minor: the minor itself where `row + col` is even, its negation where
    /// `row + col` is odd.
    pub fn cofactor(minor: Scalar, row: usize, col: usize) -> (r: Scalar)
        ensures
            r == if (row + col) % 2 == 1 { minor.negated() } else { minor },
    {
        if row % 2 != col % 2 {
            minor.neg()
        } else {
            minor
        }
    }

    /// Whether a matrix with the determinant `det` has an inverse: whenever
    /// the determinant is not a zero.  The test is exact: a determinant that
    /// is tiny, infinite or a NaN counts as not zero.
    pub fn is_inv(det: Scalar) -> (r: bool)
        ensures
            r == !det.zero_valued(),
            r == (det.nan() || det.value() != 0),
    {
        !det.is_zero()
    }

    /// Whether the two matrices have as many rows and as many columns as each
    /// other, without which they are never equal.
    pub fn same_shape(&self, other: &Matrix) -> (r: bool)
        ensures
            r == (self.rows() == other.rows() && self.cols() == other.cols()),
    {
        self.m.len() == other.m.len() && self.cols == other.cols
    }
}

impl Clone for Matrix {
    /// A matrix with the same entries.
    fn clone(&self) -> (r: Self)
        ensures
            r@ == self@,
            r.rows() == self.rows(),
            r.cols() == self.cols(),
    {
        proof {
            use_type_invariant(self);
        }
        let rows = self.m.len();
        let mut m: Vec<Vec<Scalar>> = Vec::new();
        let mut i: usize = 0;
        while i < rows
            invariant
                i <= rows,
                rows == self.m@.len(),
                forall|a: int| 0 <= a < rows ==> (#[trigger] self.m@[a]).len() == self.cols,
                m@.len() == i,
                forall|a: int| 0 <= a < i ==> (#[trigger] m@[a])@ == self.m@[a]@,
            decreases rows - i,
        {
            let mut line: Vec<Scalar> = Vec::new();
            let mut j: usize = 0;
            while j < self.cols
                invariant
                    j <= self.cols,
                    i < rows,
                    rows == self.m@.len(),
                    self.m@[i as int].len() == self.cols,
                    line@.len() == j,
                    forall|b: int| 0 <= b < j ==> #[trigger] line@[b] == self.m@[i as int]@[b],
                decreases self.cols - j,
            {
                line.push(self.m[i][j]);
                j = j + 1;
            }
            assert(line@ =~= self.m@[i as int]@);
            m.push(line);
            i = i + 1;
        }
        let r = Matrix { m, cols: self.cols };
        assert(r@ =~= self@);
        r
    }
}

} // verus!
