use vstd::prelude::*;
use crate::render::{decimal, decimal_text, render_table, table};

verus! {

/// Why an operation refused its operands.
#[derive(Debug, Clone, Copy, PartialEq, Eq, Structural)]
pub enum MatrixError {
    /// The rows handed to `from_array` were empty or not all of one length.
    ShapeError,
    /// Two operands of a cellwise operation differ in height or width.
    ShapeMismatch,
    /// The width of the left operand of `dot` differs from the height of the right.
    DimensionMismatch,
}

/// Whether an integer can be held in an `i64`.
pub open spec fn fits(x: int) -> bool {
    i64::MIN <= x <= i64::MAX
}

/// A row-major grid of `i64` cells, `height` rows of `width` cells each.
#[derive(Clone, Debug)]
pub struct Matrix {
    height: usize,
    width: usize,
    array: Vec<Vec<i64>>,
}

impl View for Matrix {
    type V = Seq<Seq<i64>>;

    /// The rows of the matrix, top to bottom.
    closed spec fn view(&self) -> Seq<Seq<i64>> {
        self.array@.map_values(|row: Vec<i64>| row@)
    }
}

impl Matrix {
    /// Number of rows.
    pub closed spec fn nrows(&self) -> nat {
        self.height as nat
    }

    /// Number of columns.
    pub closed spec fn ncols(&self) -> nat {
        self.width as nat
    }

    /// The stored rows agree with the recorded shape.
    pub open spec fn wf(&self) -> bool {
        &&& self@.len() == self.nrows()
        &&& forall|i: int| 0 <= i < self.nrows() ==> #[trigger] self@[i].len() == self.ncols()
    }

    /// `i`, `j` name a cell of this matrix.
    pub open spec fn in_bounds(&self, i: int, j: int) -> bool {
        0 <= i < self.nrows() && 0 <= j < self.ncols()
    }

    /// Same height and width as `other`.
    pub open spec fn same_shape(&self, other: &Matrix) -> bool {
        self.nrows() == other.nrows() && self.ncols() == other.ncols()
    }

    /// A `height` x `width` matrix whose cells are all zero.
    pub fn new(height: usize, width: usize) -> (r: Matrix)
        ensures
            r.wf(),
            r.nrows() == height,
            r.ncols() == width,
            forall|i: int, j: int| r.in_bounds(i, j) ==> r@[i][j] == 0,
    {
        let mut array: Vec<Vec<i64>> = Vec::new();
        let mut i: usize = 0;
        while i < height
            invariant
                i <= height,
                array@.len() == i,
                forall|k: int| 0 <= k < i ==> #[trigger] array@[k]@ == Seq::new(width as nat, |_j: int| 0i64),
            decreases height - i,
        {
            let mut row: Vec<i64> = Vec::new();
            let mut j: usize = 0;
            while j < width
                invariant
                    j <= width,
                    row@ == Seq::new(j as nat, |_j: int| 0i64),
                decreases width - j,
            {
                row.push(0);
                j += 1;
                assert(row@ =~= Seq::new(j as nat, |_j: int| 0i64));
            }
            array.push(row);
            i += 1;
        }
        Matrix { height, width, array }
    }

    /// A matrix holding `array`, one inner vector per row.
    ///
    /// Fails with `ShapeError` when `array` is empty or its rows are not all as
    /// long as the first.
    pub fn from_array(array: Vec<Vec<i64>>) -> (r: Result<Matrix, MatrixError>)
        ensures
            r is Ok <==> rectangular(array@.map_values(|row: Vec<i64>| row@)),
            r is Ok ==> {
                let m = r->Ok_0;
                &&& m.wf()
                &&& m@ == array@.map_values(|row: Vec<i64>| row@)
                &&& m.nrows() == array@.len()
                &&& m.ncols() == array@[0]@.len()
            },
            r is Err ==> r->Err_0 == MatrixError::ShapeError,
    {
        if array.len() == 0 {
            return Err(MatrixError::ShapeError);
        }
        let width = array[0].len();
        let mut i: usize = 1;
        while i < array.len()
            invariant
                1 <= i <= array@.len(),
                width == array@[0]@.len(),
                forall|k: int| 0 <= k < i ==> #[trigger] array@[k]@.len() == width,
            decreases array@.len() - i,
        {
            if array[i].len() != width {
                assert(array@.map_values(|row: Vec<i64>| row@)[i as int].len() != width);
                return Err(MatrixError::ShapeError);
            }
            i += 1;
        }
        let height = array.len();
        assert(rectangular(array@.map_values(|row: Vec<i64>| row@)));
        Ok(Matrix { height, width, array })
    }

    /// `self` has the shape of `a` and each cell is the sum of the cells of `a` and `b`.
    pub open spec fn is_sum(&self, a: &Matrix, b: &Matrix) -> bool {
        &&& self.wf()
        &&& self.same_shape(a)
        &&& forall|i: int, j: int| #[trigger] self.in_bounds(i, j) ==> self@[i][j] == a@[i][j] + b@[i][j]
    }

    /// `self` has the shape of `a` and each cell is the cell of `a` less that of `b`.
    pub open spec fn is_difference(&self, a: &Matrix, b: &Matrix) -> bool {
        &&& self.wf()
        &&& self.same_shape(a)
        &&& forall|i: int, j: int| #[trigger] self.in_bounds(i, j) ==> self@[i][j] == a@[i][j] - b@[i][j]
    }

    /// `self` has the shape of `a` and each cell is the product of the cells of `a` and `b`.
    pub open spec fn is_hadamard(&self, a: &Matrix, b: &Matrix) -> bool {
        &&& self.wf()
        &&& self.same_shape(a)
        &&& forall|i: int, j: int| #[trigger] self.in_bounds(i, j) ==> self@[i][j] == a@[i][j] * b@[i][j]
    }

    /// Every cell of `self` combined with the matching cell of `other` by `op`
    /// gives a value that an `i64` holds.
    pub open spec fn cells_fit(&self, other: &Matrix, op: spec_fn(int, int) -> int) -> bool {
        forall|i: int, j: int| #[trigger] self.in_bounds(i, j) ==> fits(op(self@[i][j] as int, other@[i][j] as int))
    }

    fn combine(&self, other: &Matrix, op: CellOp) -> (r: Matrix)
        requires
            self.wf(),
            other.wf(),
            self.same_shape(other),
            self.cells_fit(other, |x: int, y: int| op.apply(x, y)),
        ensures
            r.wf(),
            r.same_shape(self),
            forall|i: int, j: int| #[trigger] r.in_bounds(i, j) ==> r@[i][j] == op.apply(self@[i][j] as int, other@[i][j] as int),
    {
        let mut array: Vec<Vec<i64>> = Vec::new();
        let mut i: usize = 0;
        while i < self.height
            invariant
                self.wf(),
                other.wf(),
                self.same_shape(other),
                self.cells_fit(other, |x: int, y: int| op.apply(x, y)),
                i <= self.height,
                array@.len() == i,
                forall|k: int| 0 <= k < i ==> #[trigger] array@[k]@.len() == self.width,
                forall|k: int, j: int| 0 <= k < i && 0 <= j < self.width ==> #[trigger] array@[k]@[j] == op.apply(self@[k][j] as int, other@[k][j] as int),
            decreases self.height - i,
        {
            let mut row: Vec<i64> = Vec::new();
            let mut j: usize = 0;
            assert(self@[i as int].len() == self.width && other@[i as int].len() == self.width);
            while j < self.width
                invariant
                    self.wf(),
                    other.wf(),
                    self.same_shape(other),
                    self.cells_fit(other, |x: int, y: int| op.apply(x, y)),
                    i < self.height,
                    j <= self.width,
                    row@.len() == j,
                    forall|l: int| 0 <= l < j ==> #[trigger] row@[l] == op.apply(self@[i as int][l] as int, other@[i as int][l] as int),
                decreases self.width - j,
            {
                assert(self@[i as int] == self.array@[i as int]@);
                assert(other@[i as int] == other.array@[i as int]@);
                assert(self@[i as int].len() == self.width && other@[i as int].len() == self.width);
                let x = self.array[i][j];
                let y = other.array[i][j];
                assert(self.in_bounds(i as int, j as int));
                let v = match op {
                    CellOp::Add => x + y,
                    CellOp::Sub => x - y,
                    CellOp::Mul => x * y,
                };
                row.push(v);
                j += 1;
            }
            array.push(row);
            i += 1;
        }
        let r = Matrix { height: self.height, width: self.width, array };
        assert forall|i: int, j: int| #[trigger] r.in_bounds(i, j) implies r@[i][j] == op.apply(self@[i][j] as int, other@[i][j] as int) by {
            assert(array@[i]@[j] == op.apply(self@[i][j] as int, other@[i][j] as int));
        }
        r
    }

    /// Cellwise sum; fails with `ShapeMismatch` when the shapes differ.
    pub fn add(&self, other: &Matrix) -> (r: Result<Matrix, MatrixError>)
        requires
            self.wf(),
            other.wf(),
            self.same_shape(other) ==> self.cells_fit(other, |x: int, y: int| x + y),
        ensures
            r is Ok <==> self.same_shape(other),
            r is Ok ==> r->Ok_0.is_sum(self, other),
            r is Err ==> r->Err_0 == MatrixError::ShapeMismatch,
    {
        if self.height != other.height || self.width != other.width {
            return Err(MatrixError::ShapeMismatch);
        }
        assert(self.cells_fit(other, |x: int, y: int| CellOp::Add.apply(x, y)));
        Ok(self.combine(other, CellOp::Add))
    }

    /// Cellwise difference `self - other`; fails with `ShapeMismatch` when the
    /// shapes differ.
    pub fn subtract(&self, other: &Matrix) -> (r: Result<Matrix, MatrixError>)
        requires
            self.wf(),
            other.wf(),
            self.same_shape(other) ==> self.cells_fit(other, |x: int, y: int| x - y),
        ensures
            r is Ok <==> self.same_shape(other),
            r is Ok ==> r->Ok_0.is_difference(self, other),
            r is Err ==> r->Err_0 == MatrixError::ShapeMismatch,
    {
        if self.height != other.height || self.width != other.width {
            return Err(MatrixError::ShapeMismatch);
        }
        assert(self.cells_fit(other, |x: int, y: int| CellOp::Sub.apply(x, y)));
        Ok(self.combine(other, CellOp::Sub))
    }

    /// Cellwise (Hadamard) product; fails with `ShapeMismatch` when the shapes
    /// differ.
    pub fn matrix_multiply(&self, other: &Matrix) -> (r: Result<Matrix, MatrixError>)
        requires
            self.wf(),
            other.wf(),
            self.same_shape(other) ==> self.cells_fit(other, |x: int, y: int| x * y),
        ensures
            r is Ok <==> self.same_shape(other),
            r is Ok ==> r->Ok_0.is_hadamard(self, other),
            r is Err ==> r->Err_0 == MatrixError::ShapeMismatch,
    {
        if self.height != other.height || self.width != other.width {
            return Err(MatrixError::ShapeMismatch);
        }
        assert(self.cells_fit(other, |x: int, y: int| CellOp::Mul.apply(x, y)));
        Ok(self.combine(other, CellOp::Mul))
    }

    /// `self` has the shape of `a` and each cell is `factor` times the cell of `a`.
    pub open spec fn is_scaled(&self, a: &Matrix, factor: i64) -> bool {
        &&& self.wf()
        &&& self.same_shape(a)
        &&& forall|i: int, j: int| #[trigger] self.in_bounds(i, j) ==> self@[i][j] == factor * a@[i][j]
    }

    /// Every cell times `factor` is a value that an `i64` holds.
    pub open spec fn scale_fits(&self, factor: i64) -> bool {
        forall|i: int, j: int| #[trigger] self.in_bounds(i, j) ==> fits(factor * self@[i][j])
    }

    /// The matrix with every cell multiplied by `factor`.
    pub fn multiply(&self, factor: i64) -> (r: Matrix)
        requires
            self.wf(),
            self.scale_fits(factor),
        ensures
            r.is_scaled(self, factor),
    {
        let mut array: Vec<Vec<i64>> = Vec::new();
        let mut i: usize = 0;
        while i < self.height
            invariant
                self.wf(),
                self.scale_fits(factor),
                i <= self.height,
                array@.len() == i,
                forall|k: int| 0 <= k < i ==> #[trigger] array@[k]@.len() == self.width,
                forall|k: int, j: int| 0 <= k < i && 0 <= j < self.width ==> #[trigger] array@[k]@[j] == factor * self@[k][j],
            decreases self.height - i,
        {
            let mut row: Vec<i64> = Vec::new();
            let mut j: usize = 0;
            while j < self.width
                invariant
                    self.wf(),
                    self.scale_fits(factor),
                    i < self.height,
                    j <= self.width,
                    row@.len() == j,
                    forall|l: int| 0 <= l < j ==> #[trigger] row@[l] == factor * self@[i as int][l],
                decreases self.width - j,
            {
                assert(self@[i as int] == self.array@[i as int]@);
                assert(self@[i as int].len() == self.width);
                assert(self.in_bounds(i as int, j as int));
                row.push(factor * self.array[i][j]);
                j += 1;
            }
            array.push(row);
            i += 1;
        }
        let r = Matrix { height: self.height, width: self.width, array };
        assert forall|i: int, j: int| #[trigger] r.in_bounds(i, j) implies r@[i][j] == factor * self@[i][j] by {
            assert(array@[i]@[j] == factor * self@[i][j]);
        }
        r
    }

    /// `self` is the transpose of `a`: its rows are the columns of `a`.
    pub open spec fn is_transpose(&self, a: &Matrix) -> bool {
        &&& self.wf()
        &&& self.nrows() == a.ncols()
        &&& self.ncols() == a.nrows()
        &&& forall|i: int, j: int| #[trigger] self.in_bounds(i, j) ==> self@[i][j] == a@[j][i]
    }

    /// The `width` x `height` matrix whose cell `[i][j]` is cell `[j][i]` of `self`.
    pub fn transpose(&self) -> (r: Matrix)
        requires
            self.wf(),
        ensures
            r.is_transpose(self),
    {
        let mut array: Vec<Vec<i64>> = Vec::new();
        let mut i: usize = 0;
        while i < self.width
            invariant
                self.wf(),
                i <= self.width,
                array@.len() == i,
                forall|k: int| 0 <= k < i ==> #[trigger] array@[k]@.len() == self.height,
                forall|k: int, j: int| 0 <= k < i && 0 <= j < self.height ==> #[trigger] array@[k]@[j] == self@[j][k],
            decreases self.width - i,
        {
            let mut row: Vec<i64> = Vec::new();
            let mut j: usize = 0;
            while j < self.height
                invariant
                    self.wf(),
                    i < self.width,
                    j <= self.height,
                    row@.len() == j,
                    forall|l: int| 0 <= l < j ==> #[trigger] row@[l] == self@[l][i as int],
                decreases self.height - j,
            {
                assert(self@[j as int] == self.array@[j as int]@);
                assert(self@[j as int].len() == self.width);
                row.push(self.array[j][i]);
                j += 1;
            }
            array.push(row);
            i += 1;
        }
        let r = Matrix { height: self.width, width: self.height, array };
        assert forall|i: int, j: int| #[trigger] r.in_bounds(i, j) implies r@[i][j] == self@[j][i] by {
            assert(array@[i]@[j] == self@[j][i]);
        }
        r
    }

    /// `self` has the shape of `a` and each cell is what `function` may return
    /// for the matching cell of `a`.
    pub open spec fn is_mapped<F: Fn(i64) -> i64>(&self, a: &Matrix, function: F) -> bool {
        &&& self.wf()
        &&& self.same_shape(a)
        &&& forall|i: int, j: int| #[trigger] self.in_bounds(i, j) ==> function.ensures((a@[i][j],), self@[i][j])
    }

    /// The matrix with `function` applied to every cell, each independently.
    pub fn apply_function<F: Fn(i64) -> i64>(&self, function: F) -> (r: Matrix)
        requires
            self.wf(),
            forall|i: int, j: int| #[trigger] self.in_bounds(i, j) ==> function.requires((self@[i][j],)),
        ensures
            r.is_mapped(self, function),
    {
        let mut array: Vec<Vec<i64>> = Vec::new();
        let mut i: usize = 0;
        while i < self.height
            invariant
                self.wf(),
                forall|i: int, j: int| #[trigger] self.in_bounds(i, j) ==> function.requires((self@[i][j],)),
                i <= self.height,
                array@.len() == i,
                forall|k: int| 0 <= k < i ==> #[trigger] array@[k]@.len() == self.width,
                forall|k: int, j: int| 0 <= k < i && 0 <= j < self.width ==> function.ensures((self@[k][j],), #[trigger] array@[k]@[j]),
            decreases self.height - i,
        {
            let mut row: Vec<i64> = Vec::new();
            let mut j: usize = 0;
            while j < self.width
                invariant
                    self.wf(),
                    forall|i: int, j: int| #[trigger] self.in_bounds(i, j) ==> function.requires((self@[i][j],)),
                    i < self.height,
                    j <= self.width,
                    row@.len() == j,
                    forall|l: int| 0 <= l < j ==> function.ensures((self@[i as int][l],), #[trigger] row@[l]),
                decreases self.width - j,
            {
                assert(self@[i as int] == self.array@[i as int]@);
                assert(self@[i as int].len() == self.width);
                assert(self.in_bounds(i as int, j as int));
                let v = function(self.array[i][j]);
                row.push(v);
                j += 1;
            }
            array.push(row);
            i += 1;
        }
        let r = Matrix { height: self.height, width: self.width, array };
        assert forall|i: int, j: int| #[trigger] r.in_bounds(i, j) implies function.ensures((self@[i][j],), r@[i][j]) by {
            assert(function.ensures((self@[i][j],), array@[i]@[j]));
        }
        r
    }

    /// Every partial sum of every cell of the product `self . other`, and every
    /// term of it, is a value that an `i64` holds.
    pub open spec fn dot_fits(&self, other: &Matrix) -> bool {
        forall|i: int, j: int, k: int|
            0 <= i < self.nrows() && 0 <= j < other.ncols() && 0 < k <= self.ncols() ==> {
                &&& fits(self@[i][k - 1] * other@[k - 1][j])
                &&& fits(#[trigger] dot_sum(self@, other@, i, j, k))
            }
    }

    /// `self` is the matrix product of `a` and `b`.
    pub open spec fn is_product(&self, a: &Matrix, b: &Matrix) -> bool {
        &&& self.wf()
        &&& self.nrows() == a.nrows()
        &&& self.ncols() == b.ncols()
        &&& forall|i: int, j: int| #[trigger] self.in_bounds(i, j) ==> self@[i][j] == dot_sum(a@, b@, i, j, a.ncols() as int)
    }

    /// The matrix product `self . other`, of shape `(self.height, other.width)`.
    /// Each cell is accumulated left to right over the inner index.
    ///
    /// Fails with `DimensionMismatch` when `self.width != other.height`.
    pub fn dot(&self, other: &Matrix) -> (r: Result<Matrix, MatrixError>)
        requires
            self.wf(),
            other.wf(),
            self.ncols() == other.nrows() ==> self.dot_fits(other),
        ensures
            r is Ok <==> self.ncols() == other.nrows(),
            r is Ok ==> r->Ok_0.is_product(self, other),
            r is Err ==> r->Err_0 == MatrixError::DimensionMismatch,
    {
        if self.width != other.height {
            return Err(MatrixError::DimensionMismatch);
        }
        let mut array: Vec<Vec<i64>> = Vec::new();
        let mut i: usize = 0;
        while i < self.height
            invariant
                self.wf(),
                other.wf(),
                self.width == other.height,
                self.dot_fits(other),
                i <= self.height,
                array@.len() == i,
                forall|k: int| 0 <= k < i ==> #[trigger] array@[k]@.len() == other.width,
                forall|k: int, j: int| 0 <= k < i && 0 <= j < other.width ==> #[trigger] array@[k]@[j] == dot_sum(self@, other@, k, j, self.width as int),
            decreases self.height - i,
        {
            let mut row: Vec<i64> = Vec::new();
            let mut j: usize = 0;
            assert(self@[i as int] == self.array@[i as int]@);
            assert(self@[i as int].len() == self.width);
            while j < other.width
                invariant
                    self.wf(),
                    other.wf(),
                    self.width == other.height,
                    self.dot_fits(other),
                    i < self.height,
                    self@[i as int] == self.array@[i as int]@,
                    j <= other.width,
                    row@.len() == j,
                    forall|l: int| 0 <= l < j ==> #[trigger] row@[l] == dot_sum(self@, other@, i as int, l, self.width as int),
                decreases other.width - j,
            {
                let mut acc: i64 = 0;
                let mut h: usize = 0;
                while h < self.width
                    invariant
                        self.wf(),
                        other.wf(),
                        self.width == other.height,
                        self.dot_fits(other),
                        i < self.height,
                        j < other.width,
                        self@[i as int] == self.array@[i as int]@,
                        h <= self.width,
                        acc == dot_sum(self@, other@, i as int, j as int, h as int),
                    decreases self.width - h,
                {
                    assert(self@[i as int].len() == self.width);
                    assert(other@[h as int] == other.array@[h as int]@);
                    assert(other@[h as int].len() == other.width);
                    assert(fits(dot_sum(self@, other@, i as int, j as int, h + 1)));
                    let p = self.array[i][h] * other.array[h][j];
                    acc = acc + p;
                    h += 1;
                }
                row.push(acc);
                j += 1;
            }
            array.push(row);
            i += 1;
        }
        let r = Matrix { height: self.height, width: other.width, array };
        assert forall|i: int, j: int| #[trigger] r.in_bounds(i, j) implies r@[i][j] == dot_sum(self@, other@, i, j, self.ncols() as int) by {
            assert(array@[i]@[j] == dot_sum(self@, other@, i, j, self.width as int));
        }
        Ok(r)
    }

    /// The number of rows.
    pub fn height(&self) -> (r: usize)
        ensures
            r == self.nrows(),
    {
        self.height
    }

    /// The number of columns.
    pub fn width(&self) -> (r: usize)
        ensures
            r == self.ncols(),
    {
        self.width
    }

    /// Cell `[i][j]`.
    pub fn get(&self, i: usize, j: usize) -> (r: i64)
        requires
            self.wf(),
            self.in_bounds(i as int, j as int),
        ensures
            r == self@[i as int][j as int],
    {
        assert(self@[i as int] == self.array@[i as int]@);
        self.array[i][j]
    }

    /// The matrix as text: each cell in decimal, right-justified to the widest
    /// cell of its column, cells separated by one space, each row ended by a
    /// newline.
    pub fn print(&self) -> (r: Vec<u8>)
        requires
            self.wf(),
        ensures
            r@ == table(text_cells(self@), self.ncols() as int),
    {
        let mut cells: Vec<Vec<Vec<u8>>> = Vec::new();
        let mut i: usize = 0;
        while i < self.height
            invariant
                self.wf(),
                i <= self.height,
                cells@.len() == i,
                forall|k: int| 0 <= k < i ==> #[trigger] cells@[k]@.len() == self.width,
                forall|k: int, j: int| 0 <= k < i && 0 <= j < self.width ==> #[trigger] cells@[k]@[j]@ == decimal(self@[k][j] as int),
            decreases self.height - i,
        {
            let mut row: Vec<Vec<u8>> = Vec::new();
            let mut j: usize = 0;
            assert(self@[i as int] == self.array@[i as int]@);
            assert(self@[i as int].len() == self.width);
            while j < self.width
                invariant
                    self.wf(),
                    i < self.height,
                    self@[i as int] == self.array@[i as int]@,
                    j <= self.width,
                    row@.len() == j,
                    forall|l: int| 0 <= l < j ==> #[trigger] row@[l]@ == decimal(self@[i as int][l] as int),
                decreases self.width - j,
            {
                row.push(decimal_text(self.array[i][j]));
                j += 1;
            }
            cells.push(row);
            i += 1;
        }
        assert forall|k: int| 0 <= k < self.height implies #[trigger] cells.deep_view()[k] == text_cells(self@)[k] by {
            assert(self@[k].len() == self.width);
            assert forall|j: int| 0 <= j < self.width implies #[trigger] cells@[k]@[j].deep_view() == cells@[k]@[j]@ by {
                assert(cells@[k]@[j].deep_view() =~= cells@[k]@[j]@);
            }
            assert(cells.deep_view()[k] =~= text_cells(self@)[k]);
        }
        assert(cells.deep_view() =~= text_cells(self@));
        render_table(&cells, self.width)
    }
}

/// The decimal texts of the cells of `m`, row by row.
pub open spec fn text_cells(m: Seq<Seq<i64>>) -> Seq<Seq<Seq<u8>>> {
    Seq::new(m.len(), |i: int| Seq::new(m[i].len(), |j: int| decimal(m[i][j] as int)))
}

/// The sum of the first `k` terms `a[i][h] * b[h][j]`, taken in order of `h`.
pub open spec fn dot_sum(a: Seq<Seq<i64>>, b: Seq<Seq<i64>>, i: int, j: int, k: int) -> int
    decreases k,
{
    if k <= 0 {
        0
    } else {
        dot_sum(a, b, i, j, k - 1) + a[i][k - 1] * b[k - 1][j]
    }
}

/// The arithmetic of a cellwise operation.
enum CellOp {
    Add,
    Sub,
    Mul,
}

impl CellOp {
    spec fn apply(self, x: int, y: int) -> int {
        match self {
            CellOp::Add => x + y,
            CellOp::Sub => x - y,
            CellOp::Mul => x * y,
        }
    }
}

/// A non-empty sequence of rows that are all as long as the first.
pub open spec fn rectangular(rows: Seq<Seq<i64>>) -> bool {
    &&& rows.len() > 0
    &&& forall|i: int| 0 <= i < rows.len() ==> #[trigger] rows[i].len() == rows[0].len()
}

} // verus!
