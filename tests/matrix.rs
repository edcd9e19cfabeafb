use neural_rust::{Matrix, MatrixError};

fn from_rows(rows: Vec<Vec<i64>>) -> Matrix {
    Matrix::from_array(rows).unwrap()
}

fn cells(m: &Matrix) -> Vec<Vec<i64>> {
    let mut out = Vec::new();
    for i in 0..m.height() {
        let mut row = Vec::new();
        for j in 0..m.width() {
            row.push(m.get(i, j));
        }
        out.push(row);
    }
    out
}

#[test]
fn test_new() {
    let m = Matrix::new(2, 3);
    assert_eq!(m.height(), 2, "height");
    assert_eq!(m.width(), 3, "width");
    assert_eq!(cells(&m), vec![vec![0, 0, 0], vec![0, 0, 0]]);
}

#[test]
fn test_from_array() {
    let v = vec![vec![1, 2, 3], vec![4, 5, 6]];
    let m = from_rows(v);

    assert_eq!(m.height(), 2, "height");
    assert_eq!(m.width(), 3, "width");
    assert_eq!(m.get(0, 0), 1);
    assert_eq!(m.get(0, 1), 2);
    assert_eq!(m.get(0, 2), 3);
    assert_eq!(m.get(1, 0), 4);
    assert_eq!(m.get(1, 1), 5);
    assert_eq!(m.get(1, 2), 6);
}

#[test]
fn test_multiply() {
    let m = from_rows(vec![vec![1, 2, 3], vec![4, 5, 6]]);

    let fm = m.multiply(2);

    assert_eq!(fm.height(), 2, "height");
    assert_eq!(fm.width(), 3, "width");
    assert_eq!(cells(&fm), vec![vec![2, 4, 6], vec![8, 10, 12]]);
}

#[test]
fn test_add() {
    let m1 = from_rows(vec![vec![1, 2, 3], vec![4, 5, 6]]);
    let m2 = from_rows(vec![vec![2, 3, 4], vec![5, 6, 7]]);

    let fm = m1.add(&m2).unwrap();

    assert_eq!(fm.height(), 2, "height");
    assert_eq!(fm.width(), 3, "width");
    assert_eq!(cells(&fm), vec![vec![3, 5, 7], vec![9, 11, 13]]);
}

#[test]
fn test_subtract() {
    let m1 = from_rows(vec![vec![3, 5, 7], vec![9, 11, 13]]);
    let m2 = from_rows(vec![vec![2, 3, 4], vec![5, 6, 7]]);

    let fm = m1.subtract(&m2).unwrap();

    assert_eq!(fm.height(), 2, "height");
    assert_eq!(fm.width(), 3, "width");
    assert_eq!(cells(&fm), vec![vec![1, 2, 3], vec![4, 5, 6]]);
}

#[test]
fn test_matrix_multiply() {
    let m1 = from_rows(vec![vec![3, 5, 7], vec![9, 11, 13]]);
    let m2 = from_rows(vec![vec![-2, 1, -1], vec![2, 0, 3]]);

    let fm = m1.matrix_multiply(&m2).unwrap();

    assert_eq!(fm.height(), 2, "height");
    assert_eq!(fm.width(), 3, "width");
    assert_eq!(cells(&fm), vec![vec![-6, 5, -7], vec![18, 0, 39]]);
}

#[test]
fn test_dot() {
    let m1 = from_rows(vec![vec![1, 2, 3], vec![3, 2, 1]]);
    let m2 = from_rows(vec![vec![2, 3], vec![4, 5], vec![4, 3]]);

    let fm = m1.dot(&m2).unwrap();

    assert_eq!(fm.height(), 2, "height");
    assert_eq!(fm.width(), 2, "width");
    assert_eq!(fm.get(0, 0), 22);
    assert_eq!(fm.get(0, 1), 22);
    assert_eq!(fm.get(1, 0), 18);
    assert_eq!(fm.get(1, 1), 22);
}

#[test]
fn test_transpose() {
    let m = from_rows(vec![vec![1, 2, 3], vec![4, 5, 6]]);

    let fm = m.transpose();

    assert_eq!(fm.height(), 3, "height");
    assert_eq!(fm.width(), 2, "width");
    assert_eq!(cells(&fm), vec![vec![1, 4], vec![2, 5], vec![3, 6]]);
}

fn add_two(val: i64) -> i64 {
    val + 2
}

#[test]
fn test_apply_function() {
    let m = from_rows(vec![vec![1, 2, 3], vec![4, 5, 6]]);

    let fm = m.apply_function(add_two);

    assert_eq!(fm.height(), 2, "height");
    assert_eq!(fm.width(), 3, "width");
    assert_eq!(cells(&fm), vec![vec![3, 4, 5], vec![6, 7, 8]]);
}

#[test]
fn from_array_two_rows_has_shape_and_last_cell() {
    let m = from_rows(vec![vec![1, 2, 3], vec![4, 5, 6]]);
    assert_eq!((m.height(), m.width()), (2, 3));
    assert_eq!(m.get(1, 2), 6);
}

#[test]
fn from_array_rejects_empty_input() {
    assert_eq!(Matrix::from_array(Vec::new()).err(), Some(MatrixError::ShapeError));
}

#[test]
fn from_array_rejects_ragged_rows() {
    let r = Matrix::from_array(vec![vec![1, 2], vec![1]]);
    assert_eq!(r.err(), Some(MatrixError::ShapeError));
}

#[test]
fn from_array_accepts_rows_of_no_cells() {
    let m = from_rows(vec![Vec::new(), Vec::new()]);
    assert_eq!((m.height(), m.width()), (2, 0));
}

#[test]
fn new_with_no_rows_is_empty() {
    let m = Matrix::new(0, 4);
    assert_eq!((m.height(), m.width()), (0, 4));
    assert_eq!(m.print(), Vec::<u8>::new());
}

#[test]
fn multiply_scales_each_cell_including_negatives() {
    let m = from_rows(vec![vec![-3, 0], vec![7, i64::MAX / 3]]);
    let fm = m.multiply(-3);
    assert_eq!(cells(&fm), vec![vec![9, 0], vec![-21, -(i64::MAX / 3) * 3]]);
}

#[test]
fn subtract_undoes_add() {
    let a = from_rows(vec![vec![5, -8, 0], vec![1, 2, 300]]);
    let b = from_rows(vec![vec![-7, 4, 11], vec![9, -2, 6]]);
    let back = a.add(&b).unwrap().subtract(&b).unwrap();
    assert_eq!(cells(&back), cells(&a));
}

#[test]
fn hadamard_is_commutative() {
    let a = from_rows(vec![vec![2, -3], vec![4, 5]]);
    let b = from_rows(vec![vec![7, 6], vec![-1, 0]]);
    let ab = a.matrix_multiply(&b).unwrap();
    let ba = b.matrix_multiply(&a).unwrap();
    assert_eq!(cells(&ab), cells(&ba));
    assert_eq!(cells(&ab), vec![vec![14, -18], vec![-4, 0]]);
}

#[test]
fn transpose_twice_gives_back_the_matrix() {
    let m = from_rows(vec![vec![1, 2, 3], vec![4, 5, 6]]);
    let tt = m.transpose().transpose();
    assert_eq!((tt.height(), tt.width()), (2, 3));
    assert_eq!(cells(&tt), cells(&m));
}

#[test]
fn map_with_identity_gives_back_the_matrix() {
    let m = from_rows(vec![vec![1, -2], vec![3, 4]]);
    let r = m.apply_function(|x| x);
    assert_eq!(cells(&r), cells(&m));
}

#[test]
fn cellwise_operations_reject_other_shapes() {
    let a = from_rows(vec![vec![1, 2, 3], vec![4, 5, 6]]);
    let b = from_rows(vec![vec![1, 2], vec![3, 4], vec![5, 6]]);
    assert_eq!(a.add(&b).err(), Some(MatrixError::ShapeMismatch));
    assert_eq!(a.subtract(&b).err(), Some(MatrixError::ShapeMismatch));
    assert_eq!(a.matrix_multiply(&b).err(), Some(MatrixError::ShapeMismatch));
}

#[test]
fn dot_rejects_unequal_inner_dimensions() {
    let a = from_rows(vec![vec![1, 2, 3], vec![4, 5, 6]]);
    assert_eq!(a.dot(&a).err(), Some(MatrixError::DimensionMismatch));
}

#[test]
fn dot_needs_only_inner_dimensions_to_agree() {
    let a = from_rows(vec![vec![1, 2]]);
    let b = from_rows(vec![vec![3, 4, 5], vec![6, 7, 8]]);
    let p = a.dot(&b).unwrap();
    assert_eq!((p.height(), p.width()), (1, 3));
    assert_eq!(cells(&p), vec![vec![15, 18, 21]]);
}
