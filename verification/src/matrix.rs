//! The layout of square matrices: entries, rows and columns exchanged, and a
//! row and a column taken out. What the entries are is left to the caller.
use vstd::prelude::*;

verus! {

/// A square matrix of side `side`, its entries row after row.
#[derive(Debug, PartialEq, Clone)]
pub struct Matrix<T> {
    side: usize,
    elements: Vec<T>,
}

/// The position of entry `(row, column)` in a matrix of side `side` laid out
/// row after row.
pub open spec fn slot(side: int, row: int, column: int) -> int {
    row * side + column
}

proof fn lemma_slot_in_range(side: int, row: int, column: int)
    requires
        0 <= row < side,
        0 <= column < side,
    ensures
        0 <= slot(side, row, column) < side * side,
        slot(side, row, column) + 1 <= side * side,
{
    assert(row * side + column < side * side) by (nonlinear_arith)
        requires
            0 <= row < side,
            0 <= column < side,
    ;
    assert(0 <= row * side) by (nonlinear_arith)
        requires
            0 <= row,
            0 <= side,
    ;
}

proof fn lemma_slot_below(side: int, row: int, column: int, rows: int)
    requires
        0 <= row < rows,
        0 <= column < side,
    ensures
        0 <= slot(side, row, column) < rows * side,
        row * side <= slot(side, row, column),
{
    assert(0 <= row * side + column < rows * side) by (nonlinear_arith)
        requires
            0 <= row < rows,
            0 <= column < side,
    ;
}

/// `rows` with rows and columns exchanged.
pub open spec fn transposed<T>(rows: Seq<Seq<T>>) -> Seq<Seq<T>> {
    Seq::new(rows.len(), |i: int| Seq::new(rows.len(), |j: int| rows[j][i]))
}

/// The index, among all, of the `i`-th index left once `k` is taken out.
pub open spec fn skip_index(i: int, k: int) -> int {
    if i < k {
        i
    } else {
        i + 1
    }
}

/// `rows` with row `row` and column `column` taken out.
pub open spec fn without_row_column<T>(rows: Seq<Seq<T>>, row: int, column: int) -> Seq<Seq<T>> {
    Seq::new(
        (rows.len() - 1) as nat,
        |i: int|
            Seq::new(
                (rows.len() - 1) as nat,
                |j: int| rows[skip_index(i, row)][skip_index(j, column)],
            ),
    )
}

/// The identity matrix of side `side` made of `zero` and `one`.
pub open spec fn identity_rows<T>(side: nat, zero: T, one: T) -> Seq<Seq<T>> {
    Seq::new(side, |i: int| Seq::new(side, |j: int| if i == j { one } else { zero }))
}

/// `rows` is square: each of its rows has as many entries as it has rows.
pub open spec fn is_square<T>(rows: Seq<Seq<T>>) -> bool {
    forall|i: int| 0 <= i < rows.len() ==> (#[trigger] rows[i]).len() == rows.len()
}

impl<T> Matrix<T> {
    /// The entries fill the square.
    pub closed spec fn well_formed(self) -> bool {
        self.elements@.len() == self.side * self.side
    }

    /// The entries, row after row, each row a sequence.
    pub closed spec fn rows(&self) -> Seq<Seq<T>> {
        Seq::new(
            self.side as nat,
            |i: int| Seq::new(self.side as nat, |j: int| self.elements@[slot(self.side as int, i, j)]),
        )
    }
}

impl<T> View for Matrix<T> {
    type V = Seq<Seq<T>>;

    open spec fn view(&self) -> Seq<Seq<T>> {
        self.rows()
    }
}

impl<T: Copy> Matrix<T> {
    /// The matrix whose rows are `rows`.
    pub fn new(rows: Vec<Vec<T>>) -> (r: Matrix<T>)
        requires
            forall|i: int| 0 <= i < rows@.len() ==> (#[trigger] rows@[i])@.len() == rows@.len(),
            rows@.len() * rows@.len() <= usize::MAX,
        ensures
            r.well_formed(),
            r@.len() == rows@.len(),
            forall|i: int, j: int|
                0 <= i < rows@.len() && 0 <= j < rows@.len() ==> #[trigger] r@[i][j]
                    == rows@[i]@[j],
    {
        let side = rows.len();
        let mut elements: Vec<T> = Vec::new();
        let mut i: usize = 0;
        while i < side
            invariant
                side == rows@.len(),
                side * side <= usize::MAX,
                forall|k: int| 0 <= k < rows@.len() ==> (#[trigger] rows@[k])@.len() == rows@.len(),
                i <= side,
                elements@.len() == i * side,
                forall|a: int, b: int|
                    0 <= a < i && 0 <= b < side ==> elements@[slot(side as int, a, b)]
                        == #[trigger] rows@[a]@[b],
            decreases side - i,
        {
            let mut j: usize = 0;
            while j < side
                invariant
                    side == rows@.len(),
                    side * side <= usize::MAX,
                    forall|k: int| 0 <= k < rows@.len() ==> (#[trigger] rows@[k])@.len() == rows@.len(),
                    i < side,
                    j <= side,
                    elements@.len() == i * side + j,
                    forall|a: int, b: int|
                        0 <= a < i && 0 <= b < side ==> elements@[slot(side as int, a, b)]
                            == #[trigger] rows@[a]@[b],
                    forall|b: int| 0 <= b < j ==> elements@[slot(side as int, i as int, b)]
                        == #[trigger] rows@[i as int]@[b],
                decreases side - j,
            {
                proof {
                    lemma_slot_in_range(side as int, i as int, j as int);
                }
                let ghost before = elements@;
                elements.push(rows[i][j]);
                proof {
                    assert forall|a: int, b: int|
                        0 <= a < i && 0 <= b < side implies elements@[slot(side as int, a, b)]
                        == #[trigger] rows@[a]@[b] by {
                        lemma_slot_below(side as int, a, b, i as int);
                        assert(elements@[slot(side as int, a, b)] == before[slot(side as int, a, b)]);
                    }
                }
                j = j + 1;
            }
            proof {
                assert((i + 1) * side == i * side + side) by (nonlinear_arith);
            }
            i = i + 1;
        }
        let r = Matrix { side, elements };
        assert forall|a: int, b: int|
            0 <= a < side && 0 <= b < side implies #[trigger] r@[a][b] == rows@[a]@[b] by {
            lemma_slot_in_range(side as int, a, b);
        }
        r
    }

    /// The matrix of side `side` with every entry `value`.
    pub fn filled(side: usize, value: T) -> (r: Matrix<T>)
        requires
            side * side <= usize::MAX,
        ensures
            r.well_formed(),
            r@ == Seq::new(side as nat, |i: int| Seq::new(side as nat, |j: int| value)),
    {
        let count = side * side;
        let mut elements: Vec<T> = Vec::new();
        while elements.len() < count
            invariant
                elements.len() <= count,
                forall|k: int| 0 <= k < elements@.len() ==> elements@[k] == value,
            decreases count - elements.len(),
        {
            elements.push(value);
        }
        let r = Matrix { side, elements };
        assert forall|a: int, b: int|
            0 <= a < side && 0 <= b < side implies r@[a][b] == value by {
            lemma_slot_in_range(side as int, a, b);
        }
        assert(r@ =~~= Seq::new(side as nat, |i: int| Seq::new(side as nat, |j: int| value)));
        r
    }

    /// The identity matrix of side `side`: `one` on the diagonal, `zero` elsewhere.
    pub fn identity(side: usize, zero: T, one: T) -> (r: Matrix<T>)
        requires
            side * side <= usize::MAX,
        ensures
            r.well_formed(),
            r@ == identity_rows(side as nat, zero, one),
    {
        let mut m = Matrix::filled(side, zero);
        let mut k: usize = 0;
        while k < side
            invariant
                k <= side,
                m.well_formed(),
                m@.len() == side,
                forall|a: int, b: int|
                    0 <= a < side && 0 <= b < side ==> #[trigger] m@[a][b] == if a == b && a < k {
                        one
                    } else {
                        zero
                    },
                forall|a: int| 0 <= a < side ==> (#[trigger] m@[a]).len() == side,
            decreases side - k,
        {
            m.set_index(k, k, one);
            k = k + 1;
        }
        assert(m@ =~~= identity_rows(side as nat, zero, one));
        m
    }

    /// The side of the matrix.
    pub fn side(&self) -> (r: usize)
        requires
            self.well_formed(),
        ensures
            r == self@.len(),
            forall|i: int| 0 <= i < r ==> (#[trigger] self@[i]).len() == r,
    {
        self.side
    }

    /// Entry `(row, column)`.
    pub fn get_index(&self, row: usize, column: usize) -> (r: T)
        requires
            self.well_formed(),
            row < self@.len(),
            column < self@.len(),
        ensures
            r == self@[row as int][column as int],
    {
        // Reading the length brings in that it fits in a `usize`.
        let _ = self.elements.len();
        proof {
            lemma_slot_in_range(self.side as int, row as int, column as int);
            lemma_slot_below(self.side as int, row as int, column as int, self.side as int);
        }
        self.elements[row * self.side + column]
    }

    /// Sets entry `(row, column)` to `value`.
    pub fn set_index(&mut self, row: usize, column: usize, value: T)
        requires
            old(self).well_formed(),
            row < old(self)@.len(),
            column < old(self)@.len(),
        ensures
            final(self).well_formed(),
            final(self)@ == old(self)@.update(
                row as int,
                old(self)@[row as int].update(column as int, value),
            ),
    {
        // Reading the length brings in that it fits in a `usize`.
        let _ = self.elements.len();
        proof {
            lemma_slot_in_range(self.side as int, row as int, column as int);
            lemma_slot_below(self.side as int, row as int, column as int, self.side as int);
        }
        let ghost before = self@;
        let index = row * self.side + column;
        self.elements.set(index, value);
        proof {
            let n = self.side as int;
            assert forall|a: int, b: int| 0 <= a < n && 0 <= b < n implies #[trigger] self@[a][b]
                == before.update(row as int, before[row as int].update(column as int, value))[a][b] by {
                lemma_slot_in_range(n, a, b);
                if a != row || b != column {
                    assert(slot(n, a, b) != slot(n, row as int, column as int)) by (nonlinear_arith)
                        requires
                            0 <= a < n,
                            0 <= b < n,
                            0 <= row < n,
                            0 <= column < n,
                            a != row || b != column,
                    ;
                }
            }
            assert(self@ =~~= before.update(row as int, before[row as int].update(column as int, value)));
        }
    }

    /// The matrix with rows and columns exchanged.
    pub fn transpose(&self) -> (r: Matrix<T>)
        requires
            self.well_formed(),
        ensures
            r.well_formed(),
            r@ == transposed(self@),
    {
        let n = self.side;
        // Reading the length brings in that it fits in a `usize`.
        let _ = self.elements.len();
        let mut elements: Vec<T> = Vec::new();
        let mut i: usize = 0;
        while i < n
            invariant
                n == self.side,
                self.elements@.len() == n * n,
                n * n <= usize::MAX,
                i <= n,
                elements@.len() == i * n,
                forall|a: int, b: int|
                    0 <= a < i && 0 <= b < n ==> #[trigger] elements@[slot(n as int, a, b)]
                        == self.elements@[slot(n as int, b, a)],
            decreases n - i,
        {
            let mut j: usize = 0;
            while j < n
                invariant
                    n == self.side,
                    self.elements@.len() == n * n,
                    n * n <= usize::MAX,
                    i < n,
                    j <= n,
                    elements@.len() == i * n + j,
                    forall|a: int, b: int|
                        0 <= a < i && 0 <= b < n ==> #[trigger] elements@[slot(n as int, a, b)]
                            == self.elements@[slot(n as int, b, a)],
                    forall|b: int|
                        0 <= b < j ==> #[trigger] elements@[slot(n as int, i as int, b)]
                            == self.elements@[slot(n as int, b, i as int)],
                decreases n - j,
            {
                proof {
                    lemma_slot_in_range(n as int, j as int, i as int);
                    lemma_slot_in_range(n as int, i as int, j as int);
                    lemma_slot_below(n as int, j as int, i as int, n as int);
                }
                let ghost before = elements@;
                elements.push(self.elements[j * n + i]);
                proof {
                    assert forall|a: int, b: int|
                        0 <= a < i && 0 <= b < n implies #[trigger] elements@[slot(n as int, a, b)]
                        == self.elements@[slot(n as int, b, a)] by {
                        lemma_slot_below(n as int, a, b, i as int);
                        assert(elements@[slot(n as int, a, b)] == before[slot(n as int, a, b)]);
                    }
                }
                j = j + 1;
            }
            proof {
                assert((i + 1) * n == i * n + n) by (nonlinear_arith);
            }
            i = i + 1;
        }
        let r = Matrix { side: n, elements };
        assert(r@ =~~= transposed(self@));
        r
    }

    /// The matrix with row `row` and column `column` taken out.
    pub fn submatrix(&self, row: usize, column: usize) -> (r: Matrix<T>)
        requires
            self.well_formed(),
            row < self@.len(),
            column < self@.len(),
        ensures
            r.well_formed(),
            r@ == without_row_column(self@, row as int, column as int),
    {
        let n = self.side;
        // Reading the length brings in that it fits in a `usize`.
        let _ = self.elements.len();
        let m = n - 1;
        let mut elements: Vec<T> = Vec::new();
        let mut i: usize = 0;
        proof {
            assert(m * m <= n * n) by (nonlinear_arith)
                requires
                    m + 1 == n,
            ;
        }
        while i < m
            invariant
                n == self.side,
                m + 1 == n,
                row < n,
                column < n,
                self.elements@.len() == n * n,
                n * n <= usize::MAX,
                i <= m,
                elements@.len() == i * m,
                forall|a: int, b: int|
                    0 <= a < i && 0 <= b < m ==> #[trigger] elements@[slot(m as int, a, b)]
                        == self.elements@[slot(
                        n as int,
                        skip_index(a, row as int),
                        skip_index(b, column as int),
                    )],
            decreases m - i,
        {
            let source_row = if i < row {
                i
            } else {
                i + 1
            };
            let mut j: usize = 0;
            while j < m
                invariant
                    n == self.side,
                    m + 1 == n,
                    row < n,
                    column < n,
                    self.elements@.len() == n * n,
                    n * n <= usize::MAX,
                    i < m,
                    source_row == skip_index(i as int, row as int),
                    j <= m,
                    elements@.len() == i * m + j,
                    forall|a: int, b: int|
                        0 <= a < i && 0 <= b < m ==> #[trigger] elements@[slot(m as int, a, b)]
                            == self.elements@[slot(
                            n as int,
                            skip_index(a, row as int),
                            skip_index(b, column as int),
                        )],
                    forall|b: int|
                        0 <= b < j ==> #[trigger] elements@[slot(m as int, i as int, b)]
                            == self.elements@[slot(
                            n as int,
                            source_row as int,
                            skip_index(b, column as int),
                        )],
                decreases m - j,
            {
                let source_column = if j < column {
                    j
                } else {
                    j + 1
                };
                proof {
                    lemma_slot_in_range(n as int, source_row as int, source_column as int);
                    lemma_slot_in_range(m as int, i as int, j as int);
                    lemma_slot_below(n as int, source_row as int, source_column as int, n as int);
                }
                let ghost before = elements@;
                elements.push(self.elements[source_row * n + source_column]);
                proof {
                    assert forall|a: int, b: int|
                        0 <= a < i && 0 <= b < m implies #[trigger] elements@[slot(m as int, a, b)]
                        == self.elements@[slot(
                        n as int,
                        skip_index(a, row as int),
                        skip_index(b, column as int),
                    )] by {
                        lemma_slot_below(m as int, a, b, i as int);
                        assert(elements@[slot(m as int, a, b)] == before[slot(m as int, a, b)]);
                    }
                }
                j = j + 1;
            }
            proof {
                assert((i + 1) * m == i * m + m) by (nonlinear_arith);
            }
            i = i + 1;
        }
        let r = Matrix { side: m, elements };
        assert forall|a: int, b: int| 0 <= a < m && 0 <= b < m implies #[trigger] r@[a][b]
            == without_row_column(self@, row as int, column as int)[a][b] by {
            lemma_slot_in_range(m as int, a, b);
            lemma_slot_in_range(n as int, skip_index(a, row as int), skip_index(b, column as int));
        }
        assert(r@ =~~= without_row_column(self@, row as int, column as int));
        r
    }
}

/// Whether the cofactor of entry `(row, column)` keeps the sign of its
/// minor: it does where `row + column` is even.
pub fn cofactor_keeps_sign(row: usize, column: usize) -> (r: bool)
    ensures
        r == ((row + column) % 2 == 0),
{
    row % 2 == column % 2
}

/// Exchanging rows and columns twice gives the matrix back.
pub proof fn lemma_transpose_twice<T>(rows: Seq<Seq<T>>)
    requires
        is_square(rows),
    ensures
        transposed(transposed(rows)) == rows,
{
    assert(transposed(transposed(rows)) =~~= rows);
}

/// The identity matrix is its own transpose.
pub proof fn lemma_transpose_identity<T>(side: nat, zero: T, one: T)
    ensures
        transposed(identity_rows(side, zero, one)) == identity_rows(side, zero, one),
{
    assert(transposed(identity_rows(side, zero, one)) =~~= identity_rows(side, zero, one));
}

/// Taking out a row and a column of the transpose is taking out the column
/// and the row, then exchanging rows and columns.
pub proof fn lemma_submatrix_of_transpose<T>(rows: Seq<Seq<T>>, row: int, column: int)
    requires
        is_square(rows),
        0 <= row < rows.len(),
        0 <= column < rows.len(),
    ensures
        without_row_column(transposed(rows), column, row) == transposed(
            without_row_column(rows, row, column),
        ),
{
    assert(without_row_column(transposed(rows), column, row) =~~= transposed(
        without_row_column(rows, row, column),
    ));
}

} // verus!
