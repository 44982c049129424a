use grid_index::error::IndexError;
use grid_index::linear_accessors::LinearAccessor2d;

#[test]
fn la_rm_test() {
    let (ni, nj) = (4, 5);
    let la = LinearAccessor2d::new(ni, nj).unwrap();
    assert_eq!(la.cart2lin_rm(&[1, 3]), 8);
    assert_eq!(la.lin2cart_rm(8), [1, 3]);
    assert_eq!(la.cart2lin_rm(&[3, 4]), 19);
    assert_eq!(la.lin2cart_rm(19), [3, 4]);
    assert_eq!(la.cart2lin_rm(&[0, 0]), 0);
    assert_eq!(la.lin2cart_rm(0), [0, 0]);
}

#[test]
fn la_cm_test() {
    let (ni, nj) = (4, 5);
    let la = LinearAccessor2d::new(ni, nj).unwrap();
    assert_eq!(la.cart2lin_cm(&[1, 3]), 13);
    assert_eq!(la.lin2cart_cm(13), [1, 3]);
    assert_eq!(la.cart2lin_cm(&[3, 4]), 19);
    assert_eq!(la.lin2cart_cm(19), [3, 4]);
    assert_eq!(la.cart2lin_cm(&[0, 0]), 0);
    assert_eq!(la.lin2cart_cm(0), [0, 0]);
}

#[test]
fn new_refuses_an_extent_of_zero() {
    assert_eq!(LinearAccessor2d::new(0, 5).err(), Some(IndexError::InvalidDimensions));
    assert_eq!(LinearAccessor2d::new(4, 0).err(), Some(IndexError::InvalidDimensions));
    assert_eq!(LinearAccessor2d::new(0, 0).err(), Some(IndexError::InvalidDimensions));
    assert!(LinearAccessor2d::new(1, 1).is_ok());
    assert!(LinearAccessor2d::new(usize::MAX, usize::MAX).is_ok());
}

#[test]
fn row_major_round_trip_on_every_cell() {
    let (ni, nj) = (4, 5);
    let la = LinearAccessor2d::new(ni, nj).unwrap();
    let mut seen = vec![false; ni * nj];
    for i in 0..ni {
        for j in 0..nj {
            let lin = la.cart2lin_rm(&[i, j]);
            assert_eq!(lin, i * nj + j);
            assert!(lin < ni * nj);
            assert!(!seen[lin]);
            seen[lin] = true;
            assert_eq!(la.lin2cart_rm(lin), [i, j]);
        }
    }
}

#[test]
fn column_major_round_trip_on_every_cell() {
    let (ni, nj) = (4, 5);
    let la = LinearAccessor2d::new(ni, nj).unwrap();
    let mut seen = vec![false; ni * nj];
    for i in 0..ni {
        for j in 0..nj {
            let lin = la.cart2lin_cm(&[i, j]);
            assert_eq!(lin, j * ni + i);
            assert!(lin < ni * nj);
            assert!(!seen[lin]);
            seen[lin] = true;
            assert_eq!(la.lin2cart_cm(lin), [i, j]);
        }
    }
}

#[test]
fn flat_index_round_trip_on_every_index() {
    let (ni, nj) = (3, 7);
    let la = LinearAccessor2d::new(ni, nj).unwrap();
    for lin in 0..ni * nj {
        let rm = la.lin2cart_rm(lin);
        assert!(rm[0] < ni && rm[1] < nj);
        assert_eq!(la.cart2lin_rm(&rm), lin);
        let cm = la.lin2cart_cm(lin);
        assert!(cm[0] < ni && cm[1] < nj);
        assert_eq!(la.cart2lin_cm(&cm), lin);
    }
}

#[test]
fn the_two_orders_differ_off_the_diagonal() {
    let la = LinearAccessor2d::new(4, 5).unwrap();
    assert_eq!(la.cart2lin_rm(&[2, 1]), 11);
    assert_eq!(la.cart2lin_cm(&[2, 1]), 6);
    assert_eq!(la.lin2cart_rm(11), [2, 1]);
    assert_eq!(la.lin2cart_cm(11), [3, 2]);
    assert_eq!(la.lin2cart_rm(6), [1, 1]);
    assert_eq!(la.lin2cart_cm(6), [2, 1]);
}

#[test]
fn conversions_do_not_check_the_grid() {
    let la = LinearAccessor2d::new(4, 5).unwrap();
    assert_eq!(la.cart2lin_rm(&[7, 9]), 44);
    assert_eq!(la.cart2lin_cm(&[7, 9]), 43);
    assert_eq!(la.lin2cart_rm(23), [4, 3]);
    assert_eq!(la.lin2cart_cm(23), [3, 5]);
    assert_eq!(la.lin2cart_rm(usize::MAX), [usize::MAX / 5, usize::MAX % 5]);
    assert_eq!(la.lin2cart_cm(usize::MAX), [usize::MAX % 4, usize::MAX / 4]);
}

#[test]
fn only_the_first_two_coordinates_are_read() {
    let la = LinearAccessor2d::new(4, 5).unwrap();
    assert_eq!(la.cart2lin_rm(&[1, 3, 100]), 8);
    assert_eq!(la.cart2lin_cm(&[1, 3, 100]), 13);
}

#[test]
fn a_single_row_and_a_single_column() {
    let row = LinearAccessor2d::new(1, 6).unwrap();
    assert_eq!(row.cart2lin_rm(&[0, 4]), 4);
    assert_eq!(row.cart2lin_cm(&[0, 4]), 4);
    assert_eq!(row.lin2cart_rm(4), [0, 4]);
    assert_eq!(row.lin2cart_cm(4), [0, 4]);
    let column = LinearAccessor2d::new(6, 1).unwrap();
    assert_eq!(column.cart2lin_rm(&[4, 0]), 4);
    assert_eq!(column.cart2lin_cm(&[4, 0]), 4);
    assert_eq!(column.lin2cart_rm(4), [4, 0]);
    assert_eq!(column.lin2cart_cm(4), [4, 0]);
}
