use ggsw_lab::params::{fourier_ggsw_container_len, glwe_container_len, glwe_size_of};
use ggsw_lab::rows::{last_row, overwrite_rows, overwritten_last_row, replicate, write_row};

#[test]
fn glwe_size_adds_the_body() {
    assert_eq!(glwe_size_of(2), 3);
    assert_eq!(glwe_size_of(0), 1);
}

#[test]
fn glwe_container_of_the_experiment() {
    // GLWE dimension 2, polynomial size 64.
    assert_eq!(glwe_container_len(3, 64), 192);
    assert_eq!(glwe_container_len(3, 0), 0);
}

#[test]
fn fourier_ggsw_container_of_the_bench() {
    // polynomial size 16, GLWE size 3, 4 levels: 8 * 3 * 3 * 4 complex coefficients.
    assert_eq!(fourier_ggsw_container_len(3, 16, 4), 288);
    // half of the 12 levels of 3 rows of 192 coefficients of the standard domain
    assert_eq!(2 * fourier_ggsw_container_len(3, 64, 12), 12 * 3 * 192);
    // an odd polynomial size rounds the half down
    assert_eq!(fourier_ggsw_container_len(1, 5, 1), 2);
}

#[test]
fn replicate_fills_every_coefficient() {
    assert_eq!(replicate(7, 4), vec![7, 7, 7, 7]);
    assert_eq!(replicate(u64::MAX, 1), vec![u64::MAX]);
    assert!(replicate(3, 0).is_empty());
}

#[test]
fn write_row_replaces_one_row_only() {
    let mut c = vec![0u64, 1, 2, 3, 4, 5];
    write_row(&mut c, 1, &vec![9, 8]);
    assert_eq!(c, vec![0, 1, 9, 8, 4, 5]);
    write_row(&mut c, 2, &vec![7, 7]);
    assert_eq!(c, vec![0, 1, 9, 8, 7, 7]);
    write_row(&mut c, 0, &vec![1, 2, 3, 4, 5, 6]);
    assert_eq!(c, vec![1, 2, 3, 4, 5, 6]);
}

#[test]
fn overwrite_rows_takes_as_many_rows_as_fit() {
    let mut c = vec![0u64; 6];
    let rows = vec![vec![1u64, 2], vec![3, 4], vec![5, 6], vec![7, 8]];
    overwrite_rows(&mut c, &rows, 2);
    assert_eq!(c, vec![1, 2, 3, 4, 5, 6]);
    let mut empty: Vec<u64> = Vec::new();
    overwrite_rows(&mut empty, &rows, 2);
    assert!(empty.is_empty());
}

#[test]
fn last_row_after_overwrite_is_the_last_row_written() {
    let mut c = vec![0u64; 9];
    let rows = vec![vec![1u64, 1, 1], vec![2, 2, 2], vec![3, 3, 3], vec![4, 4, 4]];
    overwrite_rows(&mut c, &rows, 3);
    assert_eq!(last_row(&c, 3), vec![3, 3, 3]);
}

#[test]
fn last_row_of_a_single_row() {
    assert_eq!(last_row(&vec![5u64, 6], 2), vec![5, 6]);
    assert_eq!(last_row(&vec![1u64, 2, 3, 4], 1), vec![4]);
}

#[test]
fn overwritten_last_row_is_the_row_at_the_last_index() {
    let rows = vec![vec![1u64, 2], vec![3, 4], vec![5, 6]];
    assert_eq!(overwritten_last_row(vec![9u64; 4], &rows, 2), vec![3, 4]);
    assert_eq!(overwritten_last_row(vec![9u64; 2], &rows, 2), vec![1, 2]);
    assert_eq!(overwritten_last_row(vec![0u64; 6], &rows, 2), vec![5, 6]);
}

