use grid_index::circular_index::Circular2dIndex;
use grid_index::circular_index::CircularIndex;
use grid_index::error::IndexError;

#[test]
#[should_panic]
fn create_one_element_index() {
    let (lb, ub) = (1, 1);
    let _ci = CircularIndex::new(lb, ub).unwrap();
}

#[test]
#[should_panic]
fn lower_higher_than_upper() {
    let (lb, ub) = (3, 1);
    let _ci = CircularIndex::new(lb, ub).unwrap();
}

#[test]
#[should_panic]
fn index_out_of_bounds() {
    let (lb, ub) = (2, 5);
    let ci = CircularIndex::new(lb, ub).unwrap();
    let _i = ci.at(0).unwrap();
}

#[test]
fn circular_index_test() {
    let (lb, ub) = (2, 5);
    let ci = CircularIndex::new(lb, ub).unwrap();
    assert_eq!(ci.at(4), Ok(4));

    assert_eq!(ci.next(4), 5);
    assert_eq!(ci.previous(4), 3);
    assert_eq!(ci.next(5), 2);
    assert_eq!(ci.previous(2), 5);
}

#[test]
fn circular_2d_index_test() {
    let (lb_i, ub_i, lb_j, ub_j) = (2, 3, 1, 9);
    let ci2d = Circular2dIndex::new(lb_i, ub_i, lb_j, ub_j).unwrap();

    assert_eq!(ci2d.at(2, 4), Ok((2, 4)));
    assert_eq!(ci2d.next_i(2, 4), Ok((3, 4)));
    assert_eq!(ci2d.next_i(3, 4), Ok((2, 4)));
    assert_eq!(ci2d.previous_i(2, 1), Ok((3, 1)));
    assert_eq!(ci2d.next_j(3, 9), Ok((3, 1)));
    assert_eq!(ci2d.previous_j(2, 1), Ok((2, 9)));
}

#[test]
fn new_refuses_intervals_of_fewer_than_two_points() {
    assert_eq!(CircularIndex::new(1, 1).err(), Some(IndexError::InvalidRange));
    assert_eq!(CircularIndex::new(3, 1).err(), Some(IndexError::InvalidRange));
    assert_eq!(CircularIndex::new(usize::MAX, 0).err(), Some(IndexError::InvalidRange));
    assert!(CircularIndex::new(0, 1).is_ok());
    assert!(CircularIndex::new(0, usize::MAX).is_ok());
}

#[test]
fn at_accepts_exactly_the_points_of_the_interval() {
    let ci = CircularIndex::new(2, 5).unwrap();
    assert_eq!(ci.at(0), Err(IndexError::OutOfBounds));
    assert_eq!(ci.at(1), Err(IndexError::OutOfBounds));
    for i in 2..=5 {
        assert_eq!(ci.at(i), Ok(i));
    }
    assert_eq!(ci.at(6), Err(IndexError::OutOfBounds));
    assert_eq!(ci.at(usize::MAX), Err(IndexError::OutOfBounds));
}

#[test]
fn next_and_previous_undo_each_other() {
    let ci = CircularIndex::new(2, 5).unwrap();
    for i in 2..=5 {
        assert_eq!(ci.next(ci.previous(i)), i);
        assert_eq!(ci.previous(ci.next(i)), i);
        assert!(ci.at(ci.next(i)).is_ok());
        assert!(ci.at(ci.previous(i)).is_ok());
    }
}

#[test]
fn steps_wrap_around_at_the_bounds() {
    let ci = CircularIndex::new(7, 8).unwrap();
    assert_eq!(ci.next(8), 7);
    assert_eq!(ci.previous(7), 8);
    assert_eq!(ci.next(7), 8);
    assert_eq!(ci.previous(8), 7);

    let whole = CircularIndex::new(0, usize::MAX).unwrap();
    assert_eq!(whole.next(usize::MAX), 0);
    assert_eq!(whole.previous(0), usize::MAX);
    assert_eq!(whole.next(usize::MAX - 1), usize::MAX);
    assert_eq!(whole.previous(1), 0);
}

#[test]
fn a_copy_steps_like_the_original() {
    let ci = CircularIndex::new(2, 5).unwrap();
    let copy = ci;
    assert_eq!(copy.next(5), ci.next(5));
    assert_eq!(copy.at(9), ci.at(9));
}

#[test]
fn new_2d_refuses_an_invalid_axis() {
    assert_eq!(Circular2dIndex::new(2, 2, 1, 9).err(), Some(IndexError::InvalidRange));
    assert_eq!(Circular2dIndex::new(2, 3, 9, 1).err(), Some(IndexError::InvalidRange));
    assert_eq!(Circular2dIndex::new(5, 3, 9, 9).err(), Some(IndexError::InvalidRange));
    assert!(Circular2dIndex::new(2, 3, 1, 9).is_ok());
}

#[test]
fn at_2d_checks_both_coordinates() {
    let ci2d = Circular2dIndex::new(2, 3, 1, 9).unwrap();
    assert_eq!(ci2d.at(3, 9), Ok((3, 9)));
    assert_eq!(ci2d.at(1, 4), Err(IndexError::OutOfBounds));
    assert_eq!(ci2d.at(4, 4), Err(IndexError::OutOfBounds));
    assert_eq!(ci2d.at(2, 0), Err(IndexError::OutOfBounds));
    assert_eq!(ci2d.at(2, 10), Err(IndexError::OutOfBounds));
    assert_eq!(ci2d.at(0, 0), Err(IndexError::OutOfBounds));
}

#[test]
fn steps_2d_check_the_coordinate_that_is_held() {
    let ci2d = Circular2dIndex::new(2, 3, 1, 9).unwrap();
    assert_eq!(ci2d.next_i(2, 0), Err(IndexError::OutOfBounds));
    assert_eq!(ci2d.previous_i(3, 10), Err(IndexError::OutOfBounds));
    assert_eq!(ci2d.next_j(1, 5), Err(IndexError::OutOfBounds));
    assert_eq!(ci2d.previous_j(4, 5), Err(IndexError::OutOfBounds));
}

#[test]
fn steps_2d_move_one_coordinate_only() {
    let ci2d = Circular2dIndex::new(2, 3, 1, 9).unwrap();
    for i in 2..=3 {
        for j in 1..=9 {
            let (ni, nj) = ci2d.next_i(i, j).unwrap();
            assert_eq!(nj, j);
            assert_eq!(ci2d.previous_i(ni, nj), Ok((i, j)));
            let (mi, mj) = ci2d.next_j(i, j).unwrap();
            assert_eq!(mi, i);
            assert_eq!(ci2d.previous_j(mi, mj), Ok((i, j)));
        }
    }
    assert_eq!(ci2d.previous_i(3, 4), Ok((2, 4)));
    assert_eq!(ci2d.next_j(2, 4), Ok((2, 5)));
    assert_eq!(ci2d.previous_j(3, 9), Ok((3, 8)));
}
