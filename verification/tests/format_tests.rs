use matrix_engine::{multiply, Matrix};

#[test]
fn display_of_a_single_cell() {
    let m = Matrix::new(vec![5], 1, 1);
    assert_eq!(m.display_string(), "{5}");
}

#[test]
fn display_of_negative_entries() {
    let m = Matrix::new(vec![-3, 4, 0, -17], 2, 2);
    assert_eq!(m.display_string(), "{-3 4, 0 -17}");
}

#[test]
fn display_of_an_empty_matrix() {
    let m = Matrix::new(vec![], 0, 0);
    assert_eq!(m.display_string(), "{}");
}

#[test]
fn display_of_the_extreme_values() {
    let m = Matrix::new(vec![i64::MIN, i64::MAX], 1, 2);
    assert_eq!(
        m.display_string(),
        "{-9223372036854775808 9223372036854775807}"
    );
}

#[test]
fn debug_of_a_rectangular_matrix() {
    let m = Matrix::new(vec![1, 2, 3, 4, 5, 6], 3, 2);
    assert_eq!(m.debug_string(), "Matrix( row: 3, col: 2, {1 2, 3 4, 5 6})");
}

#[test]
fn product_formats_are_byte_exact() {
    let a = Matrix::new(vec![1, 2, 3, 4, 5, 6], 2, 3);
    let b = Matrix::new(vec![1, 2, 3, 4, 5, 6], 3, 2);
    let c = multiply(&a, &b).unwrap();
    assert_eq!(c.data(), &vec![22, 28, 49, 64]);
    assert_eq!(c.display_string(), "{22 28, 49 64}");
    assert_eq!(c.debug_string(), "Matrix( row: 2, col: 2, {22 28, 49 64})");
}
