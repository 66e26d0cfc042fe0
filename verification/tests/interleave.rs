//! Interleaving value columns.

use vortex_row::array::Array;
use vortex_row::dtype::{DType, Nullability};
use vortex_row::error::Error;
use vortex_row::interleave::{
    execute, gather, gather_rows, gather_values, validate_selectors, Interleave, Selector,
    Selectors,
};
use vortex_row::mask::Mask;
use vortex_row::row::element::Native;

fn column(values: &[i32]) -> Array<i32> {
    Array::from_values(values.to_vec(), <i32 as Native>::stored_dtype())
}

fn rows(array: &Array<i32>) -> Vec<Option<i32>> {
    (0..array.len()).map(|i| array.row(i).copied()).collect()
}

#[test]
fn selectors_of_every_width_select_what_they_count() {
    assert_eq!(200u8.position(), 200);
    assert_eq!(60_000u16.position(), 60_000);
    assert_eq!(70_000u32.position(), 70_000);
    assert_eq!(7u64.position(), 7);
}

#[test]
fn every_row_is_picked_from_its_branch() {
    let values = vec![vec![10, 11, 12], vec![20, 21]];

    let picked = gather(&values, &[0u8, 1, 1, 0], &[2u16, 0, 1, 0]).unwrap();
    assert_eq!(picked, vec![12, 20, 21, 10]);

    let picked = gather_rows(&values, &[1u64, 0], &Selectors::U32(vec![1, 1])).unwrap();
    assert_eq!(picked, vec![21, 11]);

    assert_eq!(gather(&values, &[0u8; 0], &[0u8; 0]).unwrap(), Vec::<i32>::new());
}

#[test]
fn selectors_are_checked_before_anything_is_picked() {
    let values = vec![vec![10, 11, 12], vec![20, 21]];

    assert!(matches!(
        validate_selectors(&values, &[0u8, 1], &[0u8]),
        Err(Error::SelectorRows { branches: 2, rows: 1 })
    ));
    assert!(matches!(
        validate_selectors(&values, &[0u8, 2], &[0u8, 0]),
        Err(Error::BranchOutOfBounds { row: 1, branch: 2, count: 2 })
    ));
    assert!(matches!(
        validate_selectors(&values, &[0u8, 1], &[2u8, 2]),
        Err(Error::RowOutOfBounds { row: 1, selected: 2, len: 2 })
    ));
    assert_eq!(validate_selectors(&values, &[0u8, 1], &[2u8, 1]).unwrap(), 2);

    assert_eq!(
        gather(&values, &[0u8, 1], &[2u8, 2]).unwrap_err().message(),
        "interleave row 1 selects row 2 of 2"
    );
    assert_eq!(
        gather(&values, &[3u8], &[0u8]).unwrap_err().message(),
        "interleave row 0 selects array 3 of 2"
    );
    assert_eq!(
        gather(&values, &[0u8], &[0u8, 1]).unwrap_err().message(),
        "interleave has 1 array selectors and 2 row selectors"
    );
}

#[test]
fn columns_are_interleaved_with_their_nulls() {
    let array = Interleave {
        values: vec![
            column(&[1, 2]),
            Array::from_options(vec![Some(10), None], <i32 as Native>::stored_dtype()),
        ],
        array_indices: Selectors::U8(vec![1, 0, 1, 0]),
        row_indices: Selectors::U64(vec![0, 1, 1, 0]),
    };

    let output = execute(&array).unwrap();
    assert_eq!(rows(&output), vec![Some(10), Some(2), None, Some(1)]);
    assert!(output.dtype().is_nullable());
    assert_eq!(gather_values(&array).unwrap().len(), 4);

    let array = Interleave {
        values: vec![column(&[1, 2]), Array::constant(7, <i32 as Native>::stored_dtype(), 3)],
        array_indices: Selectors::U16(vec![1, 0]),
        row_indices: Selectors::U32(vec![2, 1]),
    };
    let output = execute(&array).unwrap();
    assert_eq!(rows(&output), vec![Some(7), Some(2)]);
    assert_eq!(*output.dtype(), <i32 as Native>::stored_dtype());
}

#[test]
fn columns_of_another_type_are_rejected() {
    let utf8 = DType::Utf8(Nullability::NonNullable);
    let array = Interleave {
        values: vec![column(&[1]), Array::from_values(vec![2], utf8)],
        array_indices: Selectors::U8(vec![0]),
        row_indices: Selectors::U8(vec![0]),
    };
    assert_eq!(
        execute(&array).unwrap_err().message(),
        "cannot read columns of dtype utf8"
    );

    let array = Interleave {
        values: vec![column(&[1])],
        array_indices: Selectors::U8(vec![0]),
        row_indices: Selectors::U8(vec![1]),
    };
    assert!(matches!(
        execute(&array),
        Err(Error::RowOutOfBounds { row: 0, selected: 1, len: 1 })
    ));
}

#[test]
fn values_behind_nulls_are_carried_over() {
    picks_what_is_stored(vec![true, false, true], vec![(0u8, 1u8), (1, 0), (0, 0)]);
    picks_what_is_stored(vec![false, false, false], vec![(0u8, 2u8), (1, 1), (0, 1)]);
}

fn picks_what_is_stored(valid: Vec<bool>, picks: Vec<(u8, u8)>) {
    let first = [10, 11, 12];
    let second = [20, 21];
    let masked = column(&first).mask(&Mask::from_bits(valid.clone()));
    let array = Interleave {
        values: vec![masked, column(&second)],
        array_indices: Selectors::U8(picks.iter().map(|pick| pick.0).collect()),
        row_indices: Selectors::U8(picks.iter().map(|pick| pick.1).collect()),
    };
    let output = execute(&array).unwrap();
    for (i, (branch, row)) in picks.iter().enumerate() {
        let row = *row as usize;
        let stored = if *branch == 0 { first[row] } else { second[row] };
        assert_eq!(output.payload(i), Some(&stored));
        assert_eq!(output.row(i).is_some(), *branch == 1 || valid[row]);
    }
}
