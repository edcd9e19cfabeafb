//! Algebraic laws that relate the results of the matrix operations.
use vstd::prelude::*;
use crate::matrix::Matrix;

verus! {

/// Subtracting `b` from the sum of `a` and `b` gives back `a`, cell for cell
/// and in shape.
pub proof fn law_subtract_undoes_add(a: &Matrix, b: &Matrix, sum: &Matrix, diff: &Matrix)
    requires
        a.wf(),
        b.wf(),
        a.same_shape(b),
        sum.is_sum(a, b),
        diff.is_difference(sum, b),
    ensures
        diff.same_shape(a),
        diff@ == a@,
{
    assert forall|i: int| 0 <= i < a.nrows() implies #[trigger] diff@[i] == a@[i] by {
        assert forall|j: int| 0 <= j < a.ncols() implies #[trigger] diff@[i][j] == a@[i][j] by {
            assert(diff.in_bounds(i, j) && sum.in_bounds(i, j));
        }
        assert(diff@[i] =~= a@[i]);
    }
    assert(diff@ =~= a@);
}

/// The cellwise product does not depend on the order of its operands.
pub proof fn law_hadamard_commutes(a: &Matrix, b: &Matrix, ab: &Matrix, ba: &Matrix)
    requires
        a.wf(),
        b.wf(),
        a.same_shape(b),
        ab.is_hadamard(a, b),
        ba.is_hadamard(b, a),
    ensures
        ab.same_shape(ba),
        ab@ == ba@,
{
    assert forall|i: int| 0 <= i < a.nrows() implies #[trigger] ab@[i] == ba@[i] by {
        assert forall|j: int| 0 <= j < a.ncols() implies #[trigger] ab@[i][j] == ba@[i][j] by {
            assert(ab.in_bounds(i, j) && ba.in_bounds(i, j));
            assert(a@[i][j] * b@[i][j] == b@[i][j] * a@[i][j]) by (nonlinear_arith);
        }
        assert(ab@[i] =~= ba@[i]);
    }
    assert(ab@ =~= ba@);
}

/// Transposing twice gives back the matrix, cell for cell and in shape.
pub proof fn law_transpose_involution(m: &Matrix, t: &Matrix, tt: &Matrix)
    requires
        m.wf(),
        t.is_transpose(m),
        tt.is_transpose(t),
    ensures
        tt.same_shape(m),
        tt@ == m@,
{
    assert forall|i: int| 0 <= i < m.nrows() implies #[trigger] tt@[i] == m@[i] by {
        assert forall|j: int| 0 <= j < m.ncols() implies #[trigger] tt@[i][j] == m@[i][j] by {
            assert(tt.in_bounds(i, j) && t.in_bounds(j, i));
        }
        assert(tt@[i] =~= m@[i]);
    }
    assert(tt@ =~= m@);
}

/// Applying a function that returns its argument gives back the matrix.
pub proof fn law_map_identity<F: Fn(i64) -> i64>(m: &Matrix, function: F, r: &Matrix)
    requires
        m.wf(),
        forall|x: i64, y: i64| #[trigger] function.ensures((x,), y) ==> y == x,
        r.is_mapped(m, function),
    ensures
        r.same_shape(m),
        r@ == m@,
{
    assert forall|i: int| 0 <= i < m.nrows() implies #[trigger] r@[i] == m@[i] by {
        assert forall|j: int| 0 <= j < m.ncols() implies #[trigger] r@[i][j] == m@[i][j] by {
            assert(r.in_bounds(i, j));
        }
        assert(r@[i] =~= m@[i]);
    }
    assert(r@ =~= m@);
}

} // verus!
