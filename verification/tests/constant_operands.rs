//! Constant operands are decoded once and broadcast across the batch.

use std::sync::atomic::{AtomicUsize, Ordering};

use vortex_row::array::Array;
use vortex_row::dtype::DType;
use vortex_row::error::Error;
use vortex_row::row::element::{InputElement, Native};
use vortex_row::row::lift::execute;
use vortex_row::row::row_fn::RowFn;
use vortex_row::row::sink::ElementSink;

/// Total rows handed to [`CountedI64::decode`] across one execution.
static DECODED_ROWS: AtomicUsize = AtomicUsize::new(0);

/// Stands in for an element whose decode is expensive per row, recording how wide a column each
/// decode was actually given.
struct CountedI64;

impl InputElement for CountedI64 {
    type Value = i64;
    type Column = Vec<i64>;
    type Varying<'a> = <i64 as InputElement>::Varying<'a>;
    type Elem<'a> = i64;

    const DENSE_SAFE: bool = true;
    const DECODE_FALLIBLE: bool = false;
    const FILTERED_DECODE_COST: usize = 0;

    fn validate(dtype: &DType) -> Result<(), Error> {
        <i64 as InputElement>::validate(dtype)
    }

    fn decode(array: &Array<i64>) -> Result<Vec<i64>, Error> {
        DECODED_ROWS.fetch_add(array.len(), Ordering::Relaxed);
        <i64 as InputElement>::decode(array)
    }

    fn decode_null_tolerant(array: &Array<i64>) -> Result<Option<Vec<i64>>, Error> {
        Self::decode(array).map(Some)
    }

    fn get<'a>(column: &'a Vec<i64>, index: usize) -> i64 {
        <i64 as InputElement>::get(column, index)
    }

    fn varying<'a>(column: &'a Vec<i64>) -> Self::Varying<'a> {
        <i64 as InputElement>::varying(column)
    }

    fn varying_len<'a>(varying: &Self::Varying<'a>) -> usize {
        <i64 as InputElement>::varying_len(varying)
    }

    fn get_varying<'a>(varying: &Self::Varying<'a>, index: usize) -> i64
    where
        Self: 'a,
    {
        <i64 as InputElement>::get_varying(varying, index)
    }
}

struct AddCounted;

impl RowFn for AddCounted {
    type Args = (CountedI64, (CountedI64, ()));
    type Sink = ElementSink<i64>;
    type State = ();
    type Outcome = ();

    const FALLIBLE: bool = false;

    fn id(&self) -> String {
        String::from("vortex.test.add_counted")
    }

    fn arg_name(&self, index: usize) -> String {
        String::from(["lhs", "rhs"][index])
    }

    fn prepare<'a>(&self, _: (Option<i64>, (Option<i64>, ()))) {}

    fn apply<'a>(&self, _: &(), (lhs, (rhs, ())): (i64, (i64, ())), output: &mut i64) {
        *output = lhs + rhs;
    }

    fn reduce_encoded(
        &self,
        _: &(Array<i64>, (Array<i64>, ())),
    ) -> Result<Option<Array<i64>>, Error> {
        Ok(None)
    }
}

/// An element whose decode drops the last row, standing in for a buggy element implementation.
struct ShortDecodeI64;

impl InputElement for ShortDecodeI64 {
    type Value = i64;
    type Column = Vec<i64>;
    type Varying<'a> = <i64 as InputElement>::Varying<'a>;
    type Elem<'a> = i64;

    const DENSE_SAFE: bool = true;
    const DECODE_FALLIBLE: bool = false;
    const FILTERED_DECODE_COST: usize = 0;

    fn validate(dtype: &DType) -> Result<(), Error> {
        <i64 as InputElement>::validate(dtype)
    }

    fn decode(array: &Array<i64>) -> Result<Vec<i64>, Error> {
        let mut column = <i64 as InputElement>::decode(array)?;
        column.truncate(column.len().saturating_sub(1));
        Ok(column)
    }

    fn decode_null_tolerant(array: &Array<i64>) -> Result<Option<Vec<i64>>, Error> {
        Self::decode(array).map(Some)
    }

    fn get<'a>(column: &'a Vec<i64>, index: usize) -> i64 {
        <i64 as InputElement>::get(column, index)
    }

    fn varying<'a>(column: &'a Vec<i64>) -> Self::Varying<'a> {
        <i64 as InputElement>::varying(column)
    }

    fn varying_len<'a>(varying: &Self::Varying<'a>) -> usize {
        <i64 as InputElement>::varying_len(varying)
    }

    fn get_varying<'a>(varying: &Self::Varying<'a>, index: usize) -> i64
    where
        Self: 'a,
    {
        <i64 as InputElement>::get_varying(varying, index)
    }
}

/// Pairs a short-decoding argument with an ordinary one, so a batch-constant second operand takes
/// the mixed constant-and-varying read path rather than the all-varying one.
struct AddShort;

impl RowFn for AddShort {
    type Args = (ShortDecodeI64, (i64, ()));
    type Sink = ElementSink<i64>;
    type State = ();
    type Outcome = ();

    const FALLIBLE: bool = false;

    fn id(&self) -> String {
        String::from("vortex.test.add_short")
    }

    fn arg_name(&self, index: usize) -> String {
        String::from(["lhs", "rhs"][index])
    }

    fn prepare<'a>(&self, _: (Option<i64>, (Option<i64>, ()))) {}

    fn apply<'a>(&self, _: &(), (lhs, (rhs, ())): (i64, (i64, ())), output: &mut i64) {
        *output = lhs + rhs;
    }

    fn reduce_encoded(
        &self,
        _: &(Array<i64>, (Array<i64>, ())),
    ) -> Result<Option<Array<i64>>, Error> {
        Ok(None)
    }
}

fn column() -> Array<i64> {
    Array::from_values((0..64).collect(), <i64 as Native>::stored_dtype())
}

fn constant() -> Array<i64> {
    Array::constant(10, <i64 as Native>::stored_dtype(), 64)
}

/// A constant operand makes the whole tuple decline the all-varying read path, so the row loop
/// indexes each column directly. The decoded length still has to be checked there, or a short
/// column reaches an out-of-bounds row read.
#[test]
fn a_short_decode_beside_a_constant_operand_is_rejected() {
    let error = execute(&AddShort, &(column(), (constant(), ())), 64).unwrap_err();

    assert!(
        error.message().contains("does not address exactly 64 rows"),
        "{}",
        error.message()
    );
}

#[test]
fn a_short_decode_beside_a_column_is_rejected() {
    let error = execute(&AddShort, &(column(), (column(), ())), 64).unwrap_err();

    assert!(
        error.message().contains("does not address exactly 64 rows"),
        "{}",
        error.message()
    );
}

#[test]
fn a_constant_operand_is_decoded_once() {
    let result = execute(&AddCounted, &(column(), (constant(), ())), 64).unwrap();

    // 64 rows for the real column, plus exactly one for the constant.
    assert_eq!(DECODED_ROWS.load(Ordering::Relaxed), 65);
    let rows: Vec<Option<i64>> = (0..64).map(|i| result.row(i).copied()).collect();
    let expected: Vec<Option<i64>> = (0..64i64).map(|value| Some(value + 10)).collect();
    assert_eq!(rows, expected);
}
