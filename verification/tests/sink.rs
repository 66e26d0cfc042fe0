//! Row functions that write into a batch-wide output sink.

use vortex_row::array::Array;
use vortex_row::dtype::{DType, Nullability, PType};
use vortex_row::error::Error;
use vortex_row::mask::Mask;
use vortex_row::row::element::{InputElement, Native};
use vortex_row::row::execute::{execute_row_sink_branch, execute_row_sink_prepared, RowExecution};
use vortex_row::row::lift::execute;
use vortex_row::row::result::DeferredError;
use vortex_row::row::row_fn::{is_fallible, return_dtype, row_policy, RowFn, RowPolicy};
use vortex_row::row::sink::{ElementSink, OutputSink};

/// Builds a `FixedSizeList<T, W>` column, presenting each row as the array to fill.
///
/// Its element dtype comes from the input rather than from `T` alone, so it exercises
/// [`OutputSink::sink_dtype`] actually reading its arguments.
struct SpreadSink<T, const W: usize> {
    dtype: DType,
    rows: Vec<[T; W]>,
}

impl<T: Native, const W: usize> OutputSink for SpreadSink<T, W> {
    type Rows = Vec<[T; W]>;
    type Slot = [T; W];
    type Value = [T; W];

    fn sink_dtype(args: &[DType]) -> Result<DType, Error> {
        let element = args.first().ok_or_else(|| {
            Error::Message(String::from("a spread sink takes its element dtype from its input"))
        })?;
        <T as InputElement>::validate(element)?;
        Ok(DType::FixedSizeList(
            Box::new(element.as_nonnullable()),
            u32::try_from(W).expect("test width fits in u32"),
            Nullability::NonNullable,
        ))
    }

    fn with_capacity(rows: usize, dtype: &DType) -> Result<Self, Error> {
        Ok(Self {
            dtype: dtype.clone(),
            rows: vec![[T::zero(); W]; rows],
        })
    }

    fn rows(&mut self) -> &mut Vec<[T; W]> {
        &mut self.rows
    }

    fn row_count_matches(rows: &Vec<[T; W]>, row_count: usize) -> bool {
        rows.len() == row_count
    }

    fn row<'a>(rows: &'a mut Vec<[T; W]>, index: usize) -> &'a mut [T; W] {
        &mut rows[index]
    }

    fn finish(self, _error: DeferredError) -> Result<Array<[T; W]>, Error> {
        Ok(Array::from_values(self.rows, self.dtype))
    }
}

/// A sink that reports a data-dependent error only after every row has been written.
struct NonNegativeSink {
    values: Vec<i64>,
}

impl OutputSink for NonNegativeSink {
    const ERRORS_ARE_DEFERRED: bool = true;

    type Rows = Vec<i64>;
    type Slot = i64;
    type Value = i64;

    fn sink_dtype(args: &[DType]) -> Result<DType, Error> {
        let dtype = args.first().ok_or_else(|| {
            Error::Message(String::from("a non-negative sink requires one input"))
        })?;
        <i64 as InputElement>::validate(dtype)?;
        Ok(DType::Primitive(PType::I64, Nullability::NonNullable))
    }

    fn with_capacity(rows: usize, _dtype: &DType) -> Result<Self, Error> {
        Ok(Self { values: vec![0; rows] })
    }

    fn rows(&mut self) -> &mut Vec<i64> {
        &mut self.values
    }

    fn row_count_matches(rows: &Vec<i64>, row_count: usize) -> bool {
        rows.len() == row_count
    }

    fn row<'a>(rows: &'a mut Vec<i64>, index: usize) -> &'a mut i64 {
        &mut rows[index]
    }

    fn finish(self, error: DeferredError) -> Result<Array<i64>, Error> {
        if error.occurred() {
            return Err(Error::Message(String::from("negative output")));
        }
        Ok(Array::from_values(self.values, <i64 as Native>::stored_dtype()))
    }
}

/// Broadcasts each input value across a fixed-size list row: `spread(x) == [x, x, x]`.
struct Spread;

impl RowFn for Spread {
    type Args = (i64, ());
    type Sink = SpreadSink<i64, 3>;
    type State = ();
    type Outcome = ();

    const FALLIBLE: bool = false;

    fn id(&self) -> String {
        String::from("vortex.test.spread")
    }

    fn arg_name(&self, index: usize) -> String {
        String::from(["input"][index])
    }

    fn prepare<'a>(&self, _: (Option<i64>, ())) {}

    fn apply<'a>(&self, _: &(), (x, ()): (i64, ()), out: &mut [i64; 3]) {
        out.fill(x);
    }

    fn reduce_encoded(&self, _: &(Array<i64>, ())) -> Result<Option<Array<[i64; 3]>>, Error> {
        Ok(None)
    }
}

/// The same, but refusing negative inputs, so its row computation returns a `Result`.
struct SpreadNonNegative;

impl RowFn for SpreadNonNegative {
    type Args = (i64, ());
    type Sink = SpreadSink<i64, 3>;
    type State = ();
    type Outcome = Result<(), Error>;

    const FALLIBLE: bool = true;

    fn id(&self) -> String {
        String::from("vortex.test.spread_non_negative")
    }

    fn arg_name(&self, index: usize) -> String {
        String::from(["input"][index])
    }

    fn prepare<'a>(&self, _: (Option<i64>, ())) {}

    fn apply<'a>(
        &self,
        _: &(),
        (x, ()): (i64, ()),
        out: &mut [i64; 3],
    ) -> Result<(), Error> {
        if x < 0 {
            return Err(Error::Message(format!("negative input {x}")));
        }
        out.fill(x);
        Ok(())
    }

    fn reduce_encoded(&self, _: &(Array<i64>, ())) -> Result<Option<Array<[i64; 3]>>, Error> {
        Ok(None)
    }
}

/// Writes infallibly and lets its output sink report the error after the loop.
struct DeferredNonNegative;

impl RowFn for DeferredNonNegative {
    type Args = (i64, ());
    type Sink = NonNegativeSink;
    type State = ();
    type Outcome = bool;

    const FALLIBLE: bool = true;

    fn id(&self) -> String {
        String::from("vortex.test.deferred_non_negative")
    }

    fn arg_name(&self, index: usize) -> String {
        String::from(["input"][index])
    }

    fn prepare<'a>(&self, _: (Option<i64>, ())) {}

    fn apply<'a>(&self, _: &(), (value, ()): (i64, ()), output: &mut i64) -> bool {
        *output = value;
        value < 0
    }

    fn reduce_encoded(&self, _: &(Array<i64>, ())) -> Result<Option<Array<i64>>, Error> {
        Ok(None)
    }
}

fn column(values: &[i64]) -> Array<i64> {
    Array::from_values(values.to_vec(), <i64 as Native>::stored_dtype())
}

fn nullable(values: &[Option<i64>]) -> Array<i64> {
    Array::from_options(values.to_vec(), <i64 as Native>::stored_dtype())
}

fn masked(values: &[i64], bits: &[bool]) -> Array<i64> {
    column(values).mask(&Mask::from_bits(bits.to_vec()))
}

fn rows<V: Clone>(array: &Array<V>) -> Vec<Option<V>> {
    (0..array.len()).map(|i| array.row(i).cloned()).collect()
}

fn spread_rows(values: &[Option<i64>]) -> Vec<Option<[i64; 3]>> {
    values.iter().map(|value| value.map(|x| [x; 3])).collect()
}

fn spread_dtype() -> DType {
    DType::FixedSizeList(
        Box::new(<i64 as Native>::stored_dtype()),
        3,
        Nullability::NonNullable,
    )
}

/// The output dtype is the sink's, with its width, and every row holds the written slice.
#[test]
fn writes_one_row_at_a_time() {
    let result = execute(&Spread, &(column(&[7, -2, 0]), ()), 3).unwrap();

    assert_eq!(rows(&result), spread_rows(&[Some(7), Some(-2), Some(0)]));
    assert_eq!(*result.dtype(), spread_dtype());
}

/// A null input row is written densely and masked away afterwards, exactly as on the value path.
#[test]
fn nulls_are_masked_after_the_sink() {
    let input = nullable(&[Some(7), None, Some(4)]);

    let result = execute(&Spread, &(input, ()), 3).unwrap();

    assert!(result.dtype().is_nullable());
    assert_eq!(rows(&result), spread_rows(&[Some(7), None, Some(4)]));
    assert_eq!(*result.dtype(), spread_dtype().as_nullable());
}

/// A sink whose computation cannot fail is dense, while one whose computation can fail is
/// valid-only.
#[test]
fn null_handling_follows_from_declared_fallibility() {
    assert_eq!(row_policy::<Spread>(), RowPolicy::Dense);
    assert!(!is_fallible::<Spread>());

    assert_eq!(
        row_policy::<SpreadNonNegative>(),
        RowPolicy::ValidOnly { filtered_decode_cost: 0 }
    );
    assert!(is_fallible::<SpreadNonNegative>());

    assert_eq!(row_policy::<DeferredNonNegative>(), RowPolicy::DenseWithRetry);
}

/// An error from a writing computation aborts the batch rather than being written into the sink.
#[test]
fn a_failing_row_propagates() {
    let error = execute(&SpreadNonNegative, &(column(&[1, -5, 3]), ()), 3).unwrap_err();

    assert!(error.message().contains("negative input -5"), "{}", error.message());
}

/// A sink may accumulate a failure while its row computation remains infallible.
#[test]
fn a_sink_can_defer_its_error_until_finish() {
    let error = execute(&DeferredNonNegative, &(column(&[1, -5, 3]), ()), 3).unwrap_err();

    assert!(error.message().contains("negative output"), "{}", error.message());
}

/// A deferred failure behind a null triggers a valid-row retry and is then discarded.
#[test]
fn a_deferred_error_behind_a_null_is_ignored() {
    let input = masked(&[1, -5, 3], &[true, false, true]);

    let result = execute(&DeferredNonNegative, &(input, ()), 3).unwrap();

    assert_eq!(rows(&result), vec![Some(1), None, Some(3)]);
}

#[test]
fn a_deferred_error_at_a_valid_row_survives_the_retry() {
    let input = masked(&[1, -5, -3], &[true, false, true]);

    let error = execute(&DeferredNonNegative, &(input, ()), 3).unwrap_err();

    assert!(error.message().contains("negative output"), "{}", error.message());
}

/// Being fallible, `SpreadNonNegative` is filtered, so its computation never sees the value behind
/// a null row. A negative payload there must therefore not raise.
#[test]
fn a_failing_row_is_never_reached_behind_a_null() {
    let input = masked(&[1, -5, 3], &[true, false, true]);

    let result = execute(&SpreadNonNegative, &(input, ()), 3).unwrap();

    assert_eq!(rows(&result), spread_rows(&[Some(1), None, Some(3)]));
}

/// The sink names its output dtype from the input, so a wrong input dtype is rejected before it
/// runs rather than producing a mis-typed column.
#[test]
fn the_sink_dtype_validates_its_input() {
    let dtype = DType::Primitive(PType::F64, Nullability::NonNullable);
    assert!(return_dtype::<Spread>(&[dtype]).is_err());
}

/// The width the sink declares is the width it builds, over the element dtype it read off the
/// input.
#[test]
fn the_return_dtype_is_the_sinks() {
    let dtype = DType::Primitive(PType::I64, Nullability::NonNullable);
    assert_eq!(
        return_dtype::<Spread>(std::slice::from_ref(&dtype)).unwrap(),
        DType::FixedSizeList(Box::new(dtype), 3, Nullability::NonNullable),
    );
}

type OneI64 = (i64, ());

/// A sink that cannot skip rows declines, and one that can leaves the others alone.
#[test]
fn a_sink_that_cannot_skip_declines() {
    let dtype = <i64 as Native>::stored_dtype();
    let args = (masked(&[1, 2, 3], &[true, false, true]), ());
    let valid = Mask::from_bits(vec![true, false, true]);

    let declined = execute_row_sink_branch::<OneI64, (), NonNegativeSink, bool>(
        &args,
        3,
        &dtype,
        &valid,
        |_| (),
        |_, (x, ()), out| {
            *out = x;
            false
        },
    )
    .unwrap();
    assert!(declined.is_none());

    let taken = execute_row_sink_branch::<OneI64, (), ElementSink<i64>, ()>(
        &args,
        3,
        &dtype,
        &valid,
        |_| (),
        |_, (x, ()), out| *out = 10 * x,
    )
    .unwrap();
    match taken {
        Some(RowExecution::Output(array)) => {
            assert_eq!(array.row(0), Some(&10));
            assert_eq!(array.row(1), Some(&0));
            assert_eq!(array.row(2), Some(&30));
        }
        _ => panic!("a skipping sink must run"),
    }

    let error = execute_row_sink_branch::<OneI64, (), ElementSink<i64>, ()>(
        &args,
        3,
        &dtype,
        &Mask::new_true(3),
        |_| (),
        |_, (x, ()), out| *out = x,
    );
    assert_eq!(
        error.err().map(|error| error.message()),
        Some(String::from("execute_row_sink_branch requires a mixed mask"))
    );
}

/// A sink that allocates one row too few.
struct ShortSink {
    values: Vec<i64>,
}

impl OutputSink for ShortSink {
    const SUPPORTS_SKIPPED_ROWS: bool = true;

    type Rows = Vec<i64>;
    type Slot = i64;
    type Value = i64;

    fn sink_dtype(_: &[DType]) -> Result<DType, Error> {
        Ok(<i64 as Native>::stored_dtype())
    }

    fn with_capacity(rows: usize, _: &DType) -> Result<Self, Error> {
        if rows == 0 {
            return Err(Error::Message(String::from("nothing to allocate")));
        }
        Ok(Self { values: vec![0; rows - 1] })
    }

    fn rows(&mut self) -> &mut Vec<i64> {
        &mut self.values
    }

    fn row_count_matches(rows: &Vec<i64>, row_count: usize) -> bool {
        rows.len() == row_count
    }

    fn row<'a>(rows: &'a mut Vec<i64>, index: usize) -> &'a mut i64 {
        &mut rows[index]
    }

    fn finish(self, _: DeferredError) -> Result<Array<i64>, Error> {
        Ok(Array::from_values(self.values, <i64 as Native>::stored_dtype()))
    }
}

#[test]
fn a_sink_that_addresses_too_few_rows_is_rejected() {
    let dtype = <i64 as Native>::stored_dtype();
    let run = |values: &[i64]| {
        execute_row_sink_prepared::<OneI64, (), ShortSink, ()>(
            &(column(values), ()),
            values.len(),
            &dtype,
            |_| (),
            |_, (x, ()), out| *out = x,
        )
        .err()
        .map(|error| error.message())
    };

    assert_eq!(
        run(&[1, 2]),
        Some(String::from("the output sink does not address exactly 2 rows"))
    );
    assert_eq!(run(&[]), Some(String::from("nothing to allocate")));
}

/// A deferred error is told apart from the sink's own.
#[test]
fn a_deferred_error_is_kept_apart() {
    let dtype = <i64 as Native>::stored_dtype();
    let run = execute_row_sink_prepared::<OneI64, (), NonNegativeSink, bool>(
        &(column(&[1, -5]), ()),
        2,
        &dtype,
        |_| (),
        |_, (x, ()), out| {
            *out = x;
            x < 0
        },
    )
    .unwrap_or_else(|error| panic!("{}", error.message()));
    assert!(matches!(run, RowExecution::DeferredError(_)));
    assert_eq!(run.into_result().unwrap_err().message(), "negative output");
}

/// A row computation runs once over each row, on the slot that the sink was allocated with.
#[test]
fn each_row_runs_once() {
    let dtype = <i64 as Native>::stored_dtype();
    let run = execute_row_sink_prepared::<OneI64, (), ElementSink<i64>, ()>(
        &(column(&[1, 2, 3]), ()),
        3,
        &dtype,
        |_| (),
        |_, (x, ()), out| *out += x,
    )
    .unwrap_or_else(|error| panic!("{}", error.message()));
    let output = run.into_result().unwrap();
    assert_eq!(output.row(0), Some(&1));
    assert_eq!(output.row(1), Some(&2));
    assert_eq!(output.row(2), Some(&3));
}
