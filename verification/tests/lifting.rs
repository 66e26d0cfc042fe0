//! Null propagation, constant folding, nullability widening and options.

use vortex_row::array::Array;
use vortex_row::dtype::{DType, Nullability, PType};
use vortex_row::error::Error;
use vortex_row::mask::Mask;
use vortex_row::row::element::{InputElement, Native};
use vortex_row::row::lift::{execute, is_strict, prefers_branch, result_validity};
use vortex_row::row::row_fn::{return_dtype, row_policy, RowFn, RowPolicy};
use vortex_row::row::sink::ElementSink;

/// An `i32` element that is dense-safe iff `DENSE`, and otherwise the plain `i32` element in every
/// respect. Dense-safety is what decides the null-handling path, so a pair of these is how one
/// kernel gets run under both.
struct MaybeDenseI32<const DENSE: bool>;

impl<const DENSE: bool> InputElement for MaybeDenseI32<DENSE> {
    type Value = i32;
    type Column = <i32 as InputElement>::Column;
    type Varying<'a> = <i32 as InputElement>::Varying<'a>;
    type Elem<'a> = i32;

    const DENSE_SAFE: bool = DENSE;
    const DECODE_FALLIBLE: bool = false;
    const FILTERED_DECODE_COST: usize = 0;

    fn validate(dtype: &DType) -> Result<(), Error> {
        <i32 as InputElement>::validate(dtype)
    }

    fn decode(array: &Array<i32>) -> Result<Self::Column, Error> {
        <i32 as InputElement>::decode(array)
    }

    fn decode_null_tolerant(array: &Array<i32>) -> Result<Option<Self::Column>, Error> {
        Self::decode(array).map(Some)
    }

    fn get<'a>(column: &'a Self::Column, index: usize) -> i32 {
        <i32 as InputElement>::get(column, index)
    }

    fn varying<'a>(column: &'a Self::Column) -> Self::Varying<'a> {
        <i32 as InputElement>::varying(column)
    }

    fn varying_len<'a>(varying: &Self::Varying<'a>) -> usize {
        <i32 as InputElement>::varying_len(varying)
    }

    fn get_varying<'a>(varying: &Self::Varying<'a>, index: usize) -> i32
    where
        Self: 'a,
    {
        <i32 as InputElement>::get_varying(varying, index)
    }
}

/// Wrapping addition over two [`MaybeDenseI32`] columns.
struct Add<const DENSE: bool>;

impl<const DENSE: bool> RowFn for Add<DENSE> {
    type Args = (MaybeDenseI32<DENSE>, (MaybeDenseI32<DENSE>, ()));
    type Sink = ElementSink<i32>;
    type State = ();
    type Outcome = ();

    const FALLIBLE: bool = false;

    fn id(&self) -> String {
        if DENSE {
            String::from("vortex.test.add.dense")
        } else {
            String::from("vortex.test.add.filter")
        }
    }

    fn arg_name(&self, index: usize) -> String {
        String::from(["lhs", "rhs"][index])
    }

    fn prepare<'a>(&self, _: (Option<i32>, (Option<i32>, ()))) {}

    fn apply<'a>(&self, _: &(), (lhs, (rhs, ())): (i32, (i32, ())), output: &mut i32) {
        *output = lhs.wrapping_add(rhs);
    }

    fn reduce_encoded(
        &self,
        _: &(Array<i32>, (Array<i32>, ())),
    ) -> Result<Option<Array<i32>>, Error> {
        Ok(None)
    }
}

fn int_dtype() -> DType {
    DType::Primitive(PType::I32, Nullability::NonNullable)
}

fn column(values: &[i32]) -> Array<i32> {
    Array::from_values(values.to_vec(), int_dtype())
}

fn nullable(values: &[Option<i32>]) -> Array<i32> {
    Array::from_options(values.to_vec(), int_dtype())
}

fn rows(array: &Array<i32>) -> Vec<Option<i32>> {
    (0..array.len()).map(|i| array.row(i).copied()).collect()
}

/// Adds `lhs` to `rhs` under both null-handling paths and asserts each result equals `expected`.
fn assert_add(lhs: Array<i32>, rhs: Array<i32>, expected: Array<i32>) {
    let len = expected.len();
    let dense = execute(&Add::<true>, &(lhs.duplicate(), (rhs.duplicate(), ())), len).unwrap();
    let filtered = execute(&Add::<false>, &(lhs, (rhs, ())), len).unwrap();

    assert_eq!(row_policy::<Add<true>>(), RowPolicy::Dense);
    assert_eq!(
        row_policy::<Add<false>>(),
        RowPolicy::ValidOnly { filtered_decode_cost: 0 }
    );
    assert_eq!(rows(&dense), rows(&expected));
    assert_eq!(rows(&filtered), rows(&expected));
    assert_eq!(dense.dtype(), expected.dtype());
    assert_eq!(filtered.dtype(), expected.dtype());
}

#[test]
fn no_nulls() {
    assert_add(
        column(&[1, 2, 3]),
        column(&[10, 20, 30]),
        column(&[11, 22, 33]),
    )
}

#[test]
fn nulls_propagate() {
    assert_add(
        nullable(&[Some(1), None, Some(3), None]),
        nullable(&[Some(10), Some(20), None, None]),
        nullable(&[Some(11), None, None, None]),
    )
}

/// Strictness: a null constant makes the whole output null without the kernel running at all.
#[test]
fn null_constant_short_circuits() {
    assert_add(
        column(&[1, 2, 3]),
        Array::null_constant(&int_dtype(), 3),
        nullable(&[None, None, None]),
    )
}

/// All-constant inputs evaluate one row and broadcast it.
#[test]
fn all_constants_broadcast() {
    assert_add(
        Array::constant(2, int_dtype(), 4),
        Array::constant(40, int_dtype(), 4),
        column(&[42, 42, 42, 42]),
    );

    let args = (Array::constant(2, int_dtype(), 4), (Array::constant(40, int_dtype(), 4), ()));
    let result = execute(&Add::<true>, &args, 4).unwrap();
    assert_eq!(result.scalar(), Some(&42));
}

#[test]
fn mixed_constant_and_column() {
    assert_add(
        nullable(&[Some(1), None, Some(3)]),
        Array::constant(10, int_dtype(), 3),
        nullable(&[Some(11), None, Some(13)]),
    )
}

/// An empty batch is neither all-valid nor all-null, and a zero-length non-nullable execution keeps
/// its non-nullable dtype.
#[test]
fn empty_input_keeps_dtype() {
    let result = execute(&Add::<false>, &(column(&[]), (column(&[]), ())), 0).unwrap();

    assert_eq!(result.len(), 0);
    assert!(!result.dtype().is_nullable());
}

/// The output element dtype is non-nullable, and the lifting widens it iff an input is nullable.
#[test]
fn return_dtype_unions_nullability() {
    let non_nullable = int_dtype();
    let nullable = non_nullable.as_nullable();

    assert_eq!(
        return_dtype::<Add<true>>(&[non_nullable.clone(), non_nullable.clone()]).unwrap(),
        non_nullable
    );
    assert_eq!(
        return_dtype::<Add<true>>(&[non_nullable, nullable.clone()]).unwrap(),
        nullable
    );
}

#[test]
fn a_row_fn_is_strict() {
    assert!(is_strict::<Add<true>>());
}

/// Output sinks build an all-valid column, so the output validity is exactly the child conjunction
/// and nobody has to execute the function to learn which rows are null.
#[test]
fn validity_is_the_child_conjunction() {
    let args = (
        nullable(&[Some(1), None, Some(3), None]),
        (nullable(&[Some(10), Some(20), None, None]), ()),
    );
    let valid = result_validity::<Add<true>>(&args, 4);
    let bits: Vec<bool> = (0..4).map(|i| valid.value(i)).collect();
    assert_eq!(bits, vec![true, false, false, false]);
}

/// A row function is not serializable until the function opts into a wire representation.
#[test]
fn options_are_not_serializable_by_default() {
    assert!(matches!(RowFn::serialize(&Add::<true>), Ok(None)));
    assert!(RowFn::deserialize(&Add::<true>, &[]).is_err());
}

#[test]
fn arguments_are_counted() {
    let error = return_dtype::<Add<true>>(&[int_dtype()]).unwrap_err();
    assert_eq!(error.message(), "expected 2 arguments, got 1");
}

#[test]
fn a_payload_behind_a_null_is_never_seen() {
    let masked = column(&[1, i32::MAX, 3]).mask(&Mask::from_bits(vec![true, false, true]));
    assert_add(
        masked,
        column(&[10, 20, 30]),
        nullable(&[Some(11), None, Some(33)]),
    );
}

#[test]
fn the_decode_cost_sets_the_survivors_that_skipping_needs() {
    assert!(prefers_branch(0, 0, 100));
    assert!(prefers_branch(1, 50, 100));
    assert!(!prefers_branch(1, 49, 100));
    assert!(prefers_branch(2, 85, 100));
    assert!(!prefers_branch(2, 84, 100));
    assert!(!prefers_branch(3, 81, 100));
    assert!(prefers_branch(2, usize::MAX, usize::MAX));
}

/// An `i32` element that is expensive to decode, so that sparse columns are filtered.
struct CostlyI32;

impl InputElement for CostlyI32 {
    type Value = i32;
    type Column = <i32 as InputElement>::Column;
    type Varying<'a> = <i32 as InputElement>::Varying<'a>;
    type Elem<'a> = i32;

    const DENSE_SAFE: bool = false;
    const DECODE_FALLIBLE: bool = false;
    const FILTERED_DECODE_COST: usize = 1;

    fn validate(dtype: &DType) -> Result<(), Error> {
        <i32 as InputElement>::validate(dtype)
    }

    fn decode(array: &Array<i32>) -> Result<Self::Column, Error> {
        assert!(array.validity().all_true(), "only surviving rows are decoded");
        <i32 as InputElement>::decode(array)
    }

    fn decode_null_tolerant(_: &Array<i32>) -> Result<Option<Self::Column>, Error> {
        Ok(None)
    }

    fn get<'a>(column: &'a Self::Column, index: usize) -> i32 {
        <i32 as InputElement>::get(column, index)
    }

    fn varying<'a>(column: &'a Self::Column) -> Self::Varying<'a> {
        <i32 as InputElement>::varying(column)
    }

    fn varying_len<'a>(varying: &Self::Varying<'a>) -> usize {
        <i32 as InputElement>::varying_len(varying)
    }

    fn get_varying<'a>(varying: &Self::Varying<'a>, index: usize) -> i32
    where
        Self: 'a,
    {
        <i32 as InputElement>::get_varying(varying, index)
    }
}

struct AddCostly;

impl RowFn for AddCostly {
    type Args = (CostlyI32, (CostlyI32, ()));
    type Sink = ElementSink<i32>;
    type State = ();
    type Outcome = ();

    const FALLIBLE: bool = false;

    fn id(&self) -> String {
        String::from("vortex.test.add_costly")
    }

    fn arg_name(&self, index: usize) -> String {
        String::from(["lhs", "rhs"][index])
    }

    fn prepare<'a>(&self, _: (Option<i32>, (Option<i32>, ()))) {}

    fn apply<'a>(&self, _: &(), (lhs, (rhs, ())): (i32, (i32, ())), output: &mut i32) {
        *output = lhs + rhs;
    }

    fn reduce_encoded(
        &self,
        _: &(Array<i32>, (Array<i32>, ())),
    ) -> Result<Option<Array<i32>>, Error> {
        Ok(None)
    }
}

/// Two costly arguments add up, sparse columns are filtered, and an element that declines to skip
/// is filtered too.
#[test]
fn surviving_rows_are_filtered_and_scattered_back() {
    assert_eq!(
        row_policy::<AddCostly>(),
        RowPolicy::ValidOnly { filtered_decode_cost: 2 }
    );
    let sparse = (
        nullable(&[Some(1), None, None, Some(4)]),
        (column(&[10, 20, 30, 40]), ()),
    );
    let result = execute(&AddCostly, &sparse, 4).unwrap();
    assert_eq!(rows(&result), vec![Some(11), None, None, Some(44)]);

    let dense = (
        nullable(&[Some(1), None, Some(3), Some(4), Some(5), Some(6), Some(7), Some(8)]),
        (column(&[10, 20, 30, 40, 50, 60, 70, 80]), ()),
    );
    let result = execute(&AddCostly, &dense, 8).unwrap();
    assert_eq!(
        rows(&result),
        vec![Some(11), None, Some(33), Some(44), Some(55), Some(66), Some(77), Some(88)]
    );
}
