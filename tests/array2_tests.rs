use base::array2::{Array2, Error};
use base::extents::{Extents, Point};

fn sample() -> Array2<i32> {
    Array2::from_row_major(&[1, 2, 3, 4, 5, 6], Extents::new(3, 2)).unwrap()
}

#[test]
fn new_is_default_filled() {
    let a: Array2<u8> = Array2::new(4, 3);
    assert_eq!(a.width(), 4);
    assert_eq!(a.height(), 3);
    assert_eq!(a.size().num_elements(), 12);
    assert!(a.as_row_major().iter().all(|v| *v == 0));
    let s: Array2<String> = Array2::new(2, 2);
    assert!(s.as_row_major().iter().all(|v| v.is_empty()));
}

#[test]
fn from_size_is_default_filled() {
    let a: Array2<i64> = Array2::from_size(Extents::new(2, 5));
    assert_eq!(a.size(), Extents::new(2, 5));
    assert_eq!(a.as_row_major(), vec![0i64; 10]);
    let empty: Array2<i64> = Array2::from_size(Extents::new(0, 5));
    assert!(empty.as_row_major().is_empty());
}

#[test]
fn example_three_by_two() {
    let a = sample();
    assert_eq!(a.width(), 3);
    assert_eq!(a.height(), 2);
    assert_eq!(a.get(Point::new(0, 0)), Some(&1));
    assert_eq!(a.get(Point::new(2, 0)), Some(&3));
    assert_eq!(a.get(Point::new(0, 1)), Some(&4));
    assert_eq!(a.get(Point::new(2, 1)), Some(&6));
    let row: Vec<i32> = a.row_iter(1).unwrap().into_iter().copied().collect();
    assert_eq!(row, vec![4, 5, 6]);
    let column: Vec<i32> = a.column_iter(2).unwrap().into_iter().copied().collect();
    assert_eq!(column, vec![3, 6]);
}

#[test]
fn from_row_major_dimension_mismatch() {
    let r = Array2::from_row_major(&[1, 2, 3, 4, 5], Extents::new(3, 2));
    assert_eq!(r, Err(Error::DimensionMismatch));
    let r = Array2::from_row_major(&[1, 2, 3, 4, 5, 6, 7], Extents::new(3, 2));
    assert_eq!(r, Err(Error::DimensionMismatch));
}

#[test]
fn from_column_major_reorders() {
    let a = Array2::from_column_major(&[1, 4, 2, 5, 3, 6], Extents::new(3, 2)).unwrap();
    assert_eq!(a, sample());
    assert_eq!(a.as_row_major(), vec![1, 2, 3, 4, 5, 6]);
    let r = Array2::from_column_major(&[1, 2, 3], Extents::new(3, 2));
    assert_eq!(r, Err(Error::DimensionMismatch));
}

#[test]
fn as_column_major_lists_columns() {
    assert_eq!(sample().as_column_major(), vec![1, 4, 2, 5, 3, 6]);
}

#[test]
fn round_trip_row_major() {
    let a = Array2::from_row_major(&[10, 20, 30, 40, 50, 60, 70, 80, 90, 100, 110, 120], Extents::new(4, 3)).unwrap();
    let b = Array2::from_row_major(&a.as_row_major(), a.size()).unwrap();
    assert_eq!(a, b);
}

#[test]
fn round_trip_column_major() {
    let a = Array2::from_row_major(&[10, 20, 30, 40, 50, 60, 70, 80, 90, 100, 110, 120], Extents::new(4, 3)).unwrap();
    let b = Array2::from_column_major(&a.as_column_major(), a.size()).unwrap();
    assert_eq!(a, b);
    let tall = Array2::from_row_major(&[1, 2, 3, 4, 5, 6], Extents::new(2, 3)).unwrap();
    assert_eq!(tall.as_column_major(), vec![1, 3, 5, 2, 4, 6]);
    let back = Array2::from_column_major(&tall.as_column_major(), tall.size()).unwrap();
    assert_eq!(tall, back);
}

#[test]
fn filled_with_copies_value() {
    let a = Array2::filled_with(7u16, Extents::new(3, 3));
    assert_eq!(a.as_row_major(), vec![7u16; 9]);
}

#[test]
fn filled_by_calls_in_row_major_order() {
    let mut next = 0i32;
    let a = Array2::filled_by(
        || {
            next += 1;
            next
        },
        Extents::new(3, 2),
    );
    assert_eq!(next, 6);
    assert_eq!(a, sample());
}

#[test]
fn fill_with_overwrites_every_cell() {
    let mut a = sample();
    a.fill_with(9);
    assert_eq!(a.as_row_major(), vec![9; 6]);
    assert_eq!(a.size(), Extents::new(3, 2));
}

#[test]
fn fill_by_successive_integers() {
    let mut a: Array2<usize> = Array2::new(4, 3);
    let mut counter = 0usize;
    a.fill_by(|| {
        let v = counter;
        counter += 1;
        v
    });
    assert_eq!(counter, 12);
    for i in 0..12usize {
        assert_eq!(a.get_row_major(i), Some(&i));
    }
}

#[test]
fn from_iter_row_major_takes_what_it_needs() {
    let a = Array2::from_iter_row_major(1..=10, Extents::new(3, 2)).unwrap();
    assert_eq!(a, sample());
    let exact = Array2::from_iter_row_major(vec![1, 2, 3, 4, 5, 6].into_iter(), Extents::new(3, 2)).unwrap();
    assert_eq!(exact, sample());
}

#[test]
fn from_iter_row_major_not_enough_values() {
    let r = Array2::from_iter_row_major(1..=5, Extents::new(3, 2));
    assert_eq!(r, Err(Error::NotEnoughValues));
}

#[test]
fn from_iter_column_major_fills_columns() {
    let a = Array2::from_iter_column_major(vec![1, 4, 2, 5, 3, 6, 99].into_iter(), Extents::new(3, 2)).unwrap();
    assert_eq!(a, sample());
    let r = Array2::from_iter_column_major(1..=5, Extents::new(3, 2));
    assert_eq!(r, Err(Error::NotEnoughValues));
}

#[test]
fn get_outside_is_none() {
    let a = sample();
    assert_eq!(a.get(Point::new(3, 0)), None);
    assert_eq!(a.get(Point::new(0, 2)), None);
    assert_eq!(a.get(Point::new(-1, 1)), None);
    assert_eq!(a.get_index(Point::new(1, 1)), Some(4));
    assert_eq!(a.get_index(Point::new(1, 2)), None);
}

#[test]
fn get_row_major_and_column_major() {
    let a = sample();
    assert_eq!(a.get_row_major(0), Some(&1));
    assert_eq!(a.get_row_major(5), Some(&6));
    assert_eq!(a.get_row_major(6), None);
    assert_eq!(a.get_column_major(0), Some(&1));
    assert_eq!(a.get_column_major(1), Some(&4));
    assert_eq!(a.get_column_major(2), Some(&2));
    assert_eq!(a.get_column_major(5), Some(&6));
    assert_eq!(a.get_column_major(6), None);
    let empty: Array2<i32> = Array2::new(3, 0);
    assert_eq!(empty.get_column_major(0), None);
}

#[test]
fn get_mut_writes_through() {
    let mut a = sample();
    *a.get_mut(Point::new(1, 1)).unwrap() = 50;
    assert_eq!(a.get(Point::new(1, 1)), Some(&50));
    assert!(a.get_mut(Point::new(1, 2)).is_none());
    *a.get_mut_row_major(0).unwrap() = 10;
    assert_eq!(a.get_row_major(0), Some(&10));
    assert!(a.get_mut_row_major(6).is_none());
    *a.get_mut_column_major(1).unwrap() = 40;
    assert_eq!(a.get(Point::new(0, 1)), Some(&40));
    assert!(a.get_mut_column_major(6).is_none());
    assert_eq!(a.as_row_major(), vec![10, 2, 3, 40, 50, 6]);
}

#[test]
fn set_writes_one_cell() {
    let mut a = sample();
    assert_eq!(a.set(Point::new(2, 1), 60), Ok(()));
    assert_eq!(a.as_row_major(), vec![1, 2, 3, 4, 5, 60]);
}

#[test]
fn set_out_of_bounds_leaves_array_unchanged() {
    let mut a = sample();
    assert_eq!(a.set(Point::new(3, 0), 9), Err(Error::IndicesOutOfBounds(Point::new(3, 0))));
    assert_eq!(a, sample());
    assert_eq!(a.set(Point::new(0, -1), 9), Err(Error::IndicesOutOfBounds(Point::new(0, -1))));
    assert_eq!(a, sample());
}

#[test]
fn set_row_major_and_errors() {
    let mut a = sample();
    assert_eq!(a.set_row_major(3, 40), Ok(()));
    assert_eq!(a.get(Point::new(0, 1)), Some(&40));
    assert_eq!(a.set_row_major(6, 0), Err(Error::IndexOutOfBounds(6)));
    assert_eq!(a.as_row_major(), vec![1, 2, 3, 40, 5, 6]);
}

#[test]
fn set_column_major_and_errors() {
    let mut a = sample();
    assert_eq!(a.set_column_major(3, 50), Ok(()));
    assert_eq!(a.get(Point::new(1, 1)), Some(&50));
    assert_eq!(a.set_column_major(6, 0), Err(Error::IndexOutOfBounds(6)));
    assert_eq!(a.as_row_major(), vec![1, 2, 3, 4, 50, 6]);
}

#[test]
fn element_iterators_yield_every_cell() {
    let a = sample();
    let rows: Vec<i32> = a.elements_row_major_iter().into_iter().copied().collect();
    assert_eq!(rows, vec![1, 2, 3, 4, 5, 6]);
    let columns: Vec<i32> = a.elements_column_major_iter().into_iter().copied().collect();
    assert_eq!(columns, vec![1, 4, 2, 5, 3, 6]);
    assert_eq!(a.elements_row_major_iter().len(), a.size().num_elements());
    assert_eq!(a.elements_column_major_iter().len(), a.size().num_elements());
    let reversed: Vec<i32> = a.elements_row_major_iter().into_iter().rev().copied().collect();
    assert_eq!(reversed, vec![6, 5, 4, 3, 2, 1]);
}

#[test]
fn enumerations_hold_the_same_pairs() {
    let a = Array2::from_row_major(&[5, 1, 4, 2, 8, 3, 7, 6, 0, 9, 11, 10], Extents::new(4, 3)).unwrap();
    let rows = a.enumerate_row_major();
    let columns = a.enumerate_column_major();
    assert_eq!(rows.len(), 12);
    assert_eq!(columns.len(), 12);
    assert_eq!(rows[1], (Point::new(1, 0), &1));
    assert_eq!(columns[1], (Point::new(0, 1), &8));
    let key = |p: &(Point, &i32)| (p.0.x, p.0.y, *p.1);
    let mut r: Vec<(i32, i32, i32)> = rows.iter().map(key).collect();
    let mut c: Vec<(i32, i32, i32)> = columns.iter().map(key).collect();
    r.sort();
    c.sort();
    assert_eq!(r, c);
}

#[test]
fn row_iter_matches_get() {
    let a = Array2::from_row_major(&[10, 20, 30, 40, 50, 60, 70, 80, 90, 100, 110, 120], Extents::new(4, 3)).unwrap();
    for y in 0..3 {
        let row = a.row_iter(y).unwrap();
        assert_eq!(row.len(), 4);
        for x in 0..4 {
            assert_eq!(Some(row[x as usize]), a.get(Point::new(x, y)));
        }
    }
}

#[test]
fn row_iter_out_of_range() {
    let a = sample();
    assert_eq!(a.row_iter(2), Err(Error::IndicesOutOfBounds(Point::new(0, 2))));
    assert_eq!(a.row_iter(-1), Err(Error::IndicesOutOfBounds(Point::new(0, -1))));
}

#[test]
fn column_iter_out_of_range() {
    let a = sample();
    assert_eq!(a.column_iter(3), Err(Error::IndicesOutOfBounds(Point::new(3, 0))));
    assert_eq!(a.column_iter(-1), Err(Error::IndicesOutOfBounds(Point::new(-1, 0))));
}

#[test]
fn row_iter_of_zero_width() {
    let a: Array2<i32> = Array2::new(0, 2);
    assert_eq!(a.row_iter(1).map(|r| r.len()), Ok(0));
    assert_eq!(a.rows_iter().len(), 2);
    assert!(a.columns_iter().is_empty());
}

#[test]
fn rows_and_columns() {
    let a = sample();
    let rows: Vec<Vec<i32>> = a
        .rows_iter()
        .into_iter()
        .map(|r| r.into_iter().copied().collect())
        .collect();
    assert_eq!(rows, vec![vec![1, 2, 3], vec![4, 5, 6]]);
    let columns: Vec<Vec<i32>> = a
        .columns_iter()
        .into_iter()
        .map(|c| c.into_iter().copied().collect())
        .collect();
    assert_eq!(columns, vec![vec![1, 4], vec![2, 5], vec![3, 6]]);
}

#[test]
fn positions_of_array() {
    let a = sample();
    assert_eq!(a.positions_row_major(), Extents::new(3, 2).positions_row_major());
    assert_eq!(a.indices_column_major(), Extents::new(3, 2).positions_column_major());
    assert_eq!(a.indices_column_major()[1], Point::new(0, 1));
}
