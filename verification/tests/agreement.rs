//! What runs of one row computation have in common.

use std::sync::atomic::{AtomicUsize, Ordering};

use vortex_row::array::Array;
use vortex_row::dtype::{DType, Nullability, PType};
use vortex_row::error::Error;
use vortex_row::mask::Mask;
use vortex_row::row::conformance::assert_element_conforms;
use vortex_row::row::element::{InputElement, Native};
use vortex_row::row::execute::{
    execute_row_sink_branch, execute_row_sink_prepared, finish_sink, RowExecution,
};
use vortex_row::row::result::DeferredError;
use vortex_row::row::sink::{ElementSink, OutputSink};

type OneI64 = (i64, ());

fn dtype() -> DType {
    <i64 as Native>::stored_dtype()
}

/// A column whose payloads are `values`, null outside `valid`.
fn masked(values: &[i64], valid: &[bool]) -> Array<i64> {
    Array::from_values(values.to_vec(), dtype()).mask(&Mask::from_bits(valid.to_vec()))
}

fn rows(array: &Array<i64>) -> Vec<Option<i64>> {
    (0..array.len()).map(|i| array.row(i).copied()).collect()
}

fn skipping(column: Array<i64>, valid: &[bool]) -> Result<Vec<Option<i64>>, String> {
    let run = execute_row_sink_branch::<OneI64, (), ElementSink<i64>, Result<(), Error>>(
        &(column, ()),
        valid.len(),
        &dtype(),
        &Mask::from_bits(valid.to_vec()),
        |_| (),
        |_, (x, ()), out| {
            if x < 0 {
                return Err(Error::Message(format!("{x} is negative")));
            }
            *out = x * 10;
            Ok(())
        },
    );
    match run {
        Ok(Some(run)) => Ok(rows(&run.into_result().unwrap())),
        Ok(None) => panic!("declined"),
        Err(error) => Err(error.message()),
    }
}

#[test]
fn what_lies_behind_a_skipped_row_does_not_matter() {
    let valid = [true, false, true];
    let expected = Ok(vec![Some(10), Some(0), Some(30)]);
    assert_eq!(skipping(masked(&[1, 2, 3], &valid), &valid), expected);
    assert_eq!(skipping(masked(&[1, -7, 3], &valid), &valid), expected);

    let failed = Err(String::from("-3 is negative"));
    assert_eq!(skipping(masked(&[1, 2, -3], &valid), &valid), failed);
    assert_eq!(skipping(masked(&[1, -7, -3], &valid), &valid), failed);
}

fn dense(column: Array<i64>, row_count: usize) -> Array<i64> {
    execute_row_sink_prepared::<OneI64, (), ElementSink<i64>, ()>(
        &(column, ()),
        row_count,
        &dtype(),
        |_| (),
        |_, (x, ()), out| *out = x * 10,
    )
    .unwrap_or_else(|error| panic!("{}", error.message()))
    .into_result()
    .unwrap()
}

#[test]
fn dense_and_skipping_runs_agree_on_the_valid_rows() {
    let valid = [true, false, true];
    let mask = Mask::from_bits(valid.to_vec());
    let output = dense(masked(&[1, 2, 3], &valid), 3);
    let skipped = skipping(masked(&[1, 2, 3], &valid), &valid).unwrap();
    assert_eq!(rows(&output.mask(&mask)), vec![Some(10), None, Some(30)]);
    assert_eq!(skipped[0], Some(10));
    assert_eq!(skipped[2], Some(30));
}

/// A dense run computes a null row from what is stored behind the null.
#[test]
fn a_dense_run_reads_what_is_stored_behind_a_null() {
    let output = dense(masked(&[1, 2, 3], &[true, false, true]), 3);
    assert_eq!(rows(&output), vec![Some(10), Some(20), Some(30)]);
}

#[test]
fn a_constant_runs_as_its_expansion_does() {
    let constant = dense(Array::constant(4, dtype(), 3), 3);
    let expanded = dense(Array::from_values(vec![4, 4, 4], dtype()), 3);
    assert_eq!(rows(&constant), rows(&expanded));
    assert_eq!(rows(&constant), vec![Some(40); 3]);
}

/// A sink that reports evidence, and fails of its own accord where it has no rows.
struct Touchy(Vec<i64>);

impl OutputSink for Touchy {
    const ERRORS_ARE_DEFERRED: bool = true;

    type Rows = Vec<i64>;
    type Slot = i64;
    type Value = i64;

    fn sink_dtype(_: &[DType]) -> Result<DType, Error> {
        Ok(dtype())
    }

    fn with_capacity(rows: usize, _: &DType) -> Result<Self, Error> {
        Ok(Touchy(vec![0; rows]))
    }

    fn rows(&mut self) -> &mut Vec<i64> {
        &mut self.0
    }

    fn row_count_matches(rows: &Vec<i64>, row_count: usize) -> bool {
        rows.len() == row_count
    }

    fn row<'a>(rows: &'a mut Vec<i64>, index: usize) -> &'a mut i64 {
        &mut rows[index]
    }

    fn finish(self, error: DeferredError) -> Result<Array<i64>, Error> {
        if error.occurred() {
            return Err(Error::Message(String::from("evidence")));
        }
        if self.0.is_empty() {
            return Err(Error::Message(String::from("no rows")));
        }
        Ok(Array::from_values(self.0, dtype()))
    }
}

#[test]
fn surfacing_gives_back_what_the_sink_returned() {
    let finished = finish_sink(Touchy(vec![7]), DeferredError::new(false));
    let output = finished.and_then(RowExecution::into_result).unwrap();
    assert_eq!(rows(&output), vec![Some(7)]);

    let deferred = finish_sink(Touchy(vec![7]), DeferredError::new(true));
    assert!(matches!(deferred, Ok(RowExecution::DeferredError(_))));
    let error = deferred.and_then(RowExecution::into_result).unwrap_err();
    assert_eq!(error.message(), "evidence");

    let failed = finish_sink(Touchy(vec![]), DeferredError::new(false));
    assert!(failed.is_err());
    let error = failed.and_then(RowExecution::into_result).unwrap_err();
    assert_eq!(error.message(), "no rows");
}

static READS: AtomicUsize = AtomicUsize::new(0);
static VARYING_READS: AtomicUsize = AtomicUsize::new(0);

/// Counts its reads, and may be read behind nulls where `DENSE` is set.
struct Watched<const DENSE: bool>;

impl<const DENSE: bool> InputElement for Watched<DENSE> {
    type Value = i64;
    type Column = Vec<i64>;
    type Varying<'a> = &'a Vec<i64>;
    type Elem<'a> = i64;

    const DENSE_SAFE: bool = DENSE;
    const DECODE_FALLIBLE: bool = false;
    const FILTERED_DECODE_COST: usize = 0;

    fn validate(dtype: &DType) -> Result<(), Error> {
        <i64 as InputElement>::validate(dtype)
    }

    fn decode(array: &Array<i64>) -> Result<Vec<i64>, Error> {
        <i64 as InputElement>::decode(array)
    }

    fn decode_null_tolerant(array: &Array<i64>) -> Result<Option<Vec<i64>>, Error> {
        <i64 as InputElement>::decode_null_tolerant(array)
    }

    fn get<'a>(column: &'a Vec<i64>, index: usize) -> i64 {
        READS.fetch_add(1, Ordering::SeqCst);
        column[index]
    }

    fn varying<'a>(column: &'a Vec<i64>) -> &'a Vec<i64> {
        column
    }

    fn varying_len<'a>(varying: &&'a Vec<i64>) -> usize {
        varying.len()
    }

    fn get_varying<'a>(varying: &&'a Vec<i64>, index: usize) -> i64
    where
        Self: 'a,
    {
        VARYING_READS.fetch_add(1, Ordering::SeqCst);
        varying[index]
    }
}

#[test]
fn conformance_reads_every_row_that_may_be_read() {
    let rejected = DType::Primitive(PType::I32, Nullability::NonNullable);
    let column = || masked(&[1, 2, 3], &[true, false, true]);

    assert!(assert_element_conforms::<Watched<true>>(column(), &rejected).is_ok());
    assert_eq!(READS.swap(0, Ordering::SeqCst), 3);
    assert_eq!(VARYING_READS.swap(0, Ordering::SeqCst), 3);

    assert!(assert_element_conforms::<Watched<false>>(column(), &rejected).is_ok());
    assert_eq!(READS.swap(0, Ordering::SeqCst), 2);
    assert_eq!(VARYING_READS.swap(0, Ordering::SeqCst), 2);
}
