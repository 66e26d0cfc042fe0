//! End-to-end tests for row function execution.

use std::sync::Arc;

use vortex_row::array::Array;
use vortex_row::dtype::{DType, Nullability, PType};
use vortex_row::error::Error;
use vortex_row::mask::Mask;
use vortex_row::row::conformance::{assert_element_conforms, check_element_conforms};
use vortex_row::row::element::{InputElement, Native};
use vortex_row::row::lift::execute;
use vortex_row::row::row_fn::{display, is_fallible, row_policy, RowFn, RowPolicy};
use vortex_row::row::sink::{ElementSink, OutputElement};
use vortex_row::row::tuple::ElementTuple;

/// A double-precision element.
#[derive(Clone, Copy, Debug, PartialEq)]
struct F64(f64);

impl Native for F64 {
    fn stored_dtype() -> DType {
        DType::Primitive(PType::F64, Nullability::NonNullable)
    }

    fn zero() -> Self {
        F64(0.0)
    }
}

fn doubles(values: &[f64]) -> Array<F64> {
    Array::from_values(values.iter().map(|&x| F64(x)).collect(), F64::stored_dtype())
}

fn nullable_doubles(values: &[Option<f64>]) -> Array<F64> {
    Array::from_options(
        values.iter().map(|x| x.map(F64)).collect(),
        F64::stored_dtype(),
    )
}

fn constant_double(value: f64, len: usize) -> Array<F64> {
    Array::constant(F64(value), F64::stored_dtype(), len)
}

fn integers(values: &[i64]) -> Array<i64> {
    Array::from_values(values.to_vec(), <i64 as Native>::stored_dtype())
}

fn rows<V: Clone>(array: &Array<V>) -> Vec<Option<V>> {
    (0..array.len()).map(|i| array.row(i).cloned()).collect()
}

/// A binary row function over fixed primitive types: `hypot(x, y)`.
struct Hypot;

impl RowFn for Hypot {
    type Args = (F64, (F64, ()));
    type Sink = ElementSink<F64>;
    type State = ();
    type Outcome = ();

    const FALLIBLE: bool = false;

    fn id(&self) -> String {
        String::from("vortex.test.hypot")
    }

    fn arg_name(&self, index: usize) -> String {
        String::from(["x", "y"][index])
    }

    fn prepare<'a>(&self, _: (Option<F64>, (Option<F64>, ()))) {}

    fn apply<'a>(&self, _: &(), (x, (y, ())): (F64, (F64, ())), output: &mut F64) {
        *output = F64(x.0.hypot(y.0));
    }

    fn reduce_encoded(
        &self,
        _: &(Array<F64>, (Array<F64>, ())),
    ) -> Result<Option<Array<F64>>, Error> {
        Ok(None)
    }
}

/// Bytes that are stored as a view into shared buffers.
#[derive(Clone)]
struct StoredView {
    buffer_index: usize,
    offset: usize,
    size: usize,
    buffers: Arc<Vec<Vec<u8>>>,
}

impl StoredView {
    fn of(text: &str) -> Self {
        StoredView {
            buffer_index: 0,
            offset: 0,
            size: text.len(),
            buffers: Arc::new(vec![text.as_bytes().to_vec()]),
        }
    }

    fn resolve(&self) -> &[u8] {
        &self.buffers[self.buffer_index][self.offset..][..self.size]
    }
}

/// A byte-string element that resolves each row's view into a data buffer, which is only
/// meaningful for a valid row.
struct TestBytes;

struct TestBytesColumn {
    views: Vec<Option<StoredView>>,
}

impl InputElement for TestBytes {
    type Value = StoredView;
    type Column = TestBytesColumn;
    type Varying<'a> = &'a [Option<StoredView>];
    type Elem<'a> = &'a [u8];

    const DENSE_SAFE: bool = false;
    const DECODE_FALLIBLE: bool = false;
    const FILTERED_DECODE_COST: usize = 0;

    fn validate(dtype: &DType) -> Result<(), Error> {
        if matches!(dtype, DType::Utf8(_) | DType::Binary(_)) {
            return Ok(());
        }
        Err(Error::UnexpectedDType { dtype: dtype.clone() })
    }

    fn decode(array: &Array<StoredView>) -> Result<TestBytesColumn, Error> {
        Ok(TestBytesColumn {
            views: (0..array.len()).map(|i| array.payload(i).cloned()).collect(),
        })
    }

    fn decode_null_tolerant(
        array: &Array<StoredView>,
    ) -> Result<Option<TestBytesColumn>, Error> {
        Self::decode(array).map(Some)
    }

    fn get<'a>(column: &'a TestBytesColumn, index: usize) -> &'a [u8] {
        column.views[index].as_ref().expect("a stored view").resolve()
    }

    fn varying<'a>(column: &'a TestBytesColumn) -> &'a [Option<StoredView>] {
        &column.views
    }

    fn varying_len<'a>(varying: &&'a [Option<StoredView>]) -> usize {
        varying.len()
    }

    fn get_varying<'a>(varying: &&'a [Option<StoredView>], index: usize) -> &'a [u8]
    where
        Self: 'a,
    {
        varying[index].as_ref().expect("a stored view").resolve()
    }
}

/// Owned text, written one string per row.
#[derive(Clone, Debug, PartialEq)]
struct Text(String);

impl OutputElement for Text {
    fn element_dtype() -> DType {
        DType::Utf8(Nullability::NonNullable)
    }

    fn placeholder() -> Self {
        Text(String::new())
    }

    fn build(values: Vec<Self>) -> Array<Self> {
        Array::from_values(values, Self::element_dtype())
    }
}

/// A unary row function over strings: uppercased text.
struct Shout;

impl RowFn for Shout {
    type Args = (TestBytes, ());
    type Sink = ElementSink<Text>;
    type State = ();
    type Outcome = ();

    const FALLIBLE: bool = false;

    fn id(&self) -> String {
        String::from("vortex.test.shout")
    }

    fn arg_name(&self, index: usize) -> String {
        String::from(["input"][index])
    }

    fn prepare<'a>(&self, _: (Option<&'a [u8]>, ())) {}

    fn apply<'a>(&self, _: &(), (text, ()): (&'a [u8], ()), output: &mut Text) {
        *output = Text(String::from_utf8_lossy(text).to_uppercase());
    }

    fn reduce_encoded(&self, _: &(Array<StoredView>, ())) -> Result<Option<Array<Text>>, Error> {
        Ok(None)
    }
}

/// A fallible row function: integer division, undefined at a zero divisor.
struct CheckedDiv;

impl RowFn for CheckedDiv {
    type Args = (i64, (i64, ()));
    type Sink = ElementSink<i64>;
    type State = ();
    type Outcome = Result<(), Error>;

    const FALLIBLE: bool = true;

    fn id(&self) -> String {
        String::from("vortex.test.checked_div")
    }

    fn arg_name(&self, index: usize) -> String {
        String::from(["lhs", "rhs"][index])
    }

    fn prepare<'a>(&self, _: (Option<i64>, (Option<i64>, ()))) {}

    fn apply<'a>(
        &self,
        _: &(),
        (lhs, (rhs, ())): (i64, (i64, ())),
        output: &mut i64,
    ) -> Result<(), Error> {
        if rhs == 0 {
            return Err(Error::Message(String::from("division by zero")));
        }
        *output = lhs / rhs;
        Ok(())
    }

    fn reduce_encoded(
        &self,
        _: &(Array<i64>, (Array<i64>, ())),
    ) -> Result<Option<Array<i64>>, Error> {
        Ok(None)
    }
}

#[test]
fn hypot_columns() {
    let x = doubles(&[3.0, 5.0]);
    let y = doubles(&[4.0, 12.0]);

    let result = execute(&Hypot, &(x, (y, ())), 2).unwrap();

    assert_eq!(rows(&result), vec![Some(F64(5.0)), Some(F64(13.0))]);
    assert_eq!(*result.dtype(), F64::stored_dtype());
}

#[test]
fn hypot_propagates_nulls_and_constants() {
    let x = nullable_doubles(&[Some(3.0), None, Some(8.0)]);
    let y = constant_double(4.0, 3);

    let result = execute(&Hypot, &(x, (y, ())), 3).unwrap();

    assert_eq!(
        rows(&result),
        vec![Some(F64(5.0)), None, Some(F64((80.0f64).sqrt()))]
    );
    assert_eq!(*result.dtype(), F64::stored_dtype().as_nullable());
}

#[test]
fn shout_strings() {
    let input = Array::from_options(
        vec![Some(StoredView::of("hello")), None, Some(StoredView::of("Vortex"))],
        DType::Utf8(Nullability::NonNullable),
    );

    let result = execute(&Shout, &(input, ()), 3).unwrap();

    assert_eq!(
        rows(&result),
        vec![
            Some(Text(String::from("HELLO"))),
            None,
            Some(Text(String::from("VORTEX")))
        ]
    );
    assert_eq!(*result.dtype(), DType::Utf8(Nullability::Nullable));
}

#[test]
fn display_names_the_function_id() {
    assert_eq!(display(&Hypot), "vortex.test.hypot($, $)");
}

/// Answers every batch with one row.
struct WrongLength;

impl RowFn for WrongLength {
    type Args = (i64, ());
    type Sink = ElementSink<i64>;
    type State = ();
    type Outcome = ();

    const FALLIBLE: bool = false;

    fn id(&self) -> String {
        String::from("vortex.test.wrong_length")
    }

    fn arg_name(&self, index: usize) -> String {
        String::from(["input"][index])
    }

    fn prepare<'a>(&self, _: (Option<i64>, ())) {}

    fn apply<'a>(&self, _: &(), (value, ()): (i64, ()), output: &mut i64) {
        *output = value;
    }

    fn reduce_encoded(&self, _: &(Array<i64>, ())) -> Result<Option<Array<i64>>, Error> {
        Ok(Some(integers(&[0])))
    }
}

#[test]
fn kernel_result_length_is_validated() {
    let input = integers(&[1, 2, 3]);

    let error = execute(&WrongLength, &(input, ()), 3).unwrap_err();

    assert!(
        error.message().contains("produced 1 rows for 3 input rows"),
        "{}",
        error.message()
    );
}

struct FortyTwo;

impl RowFn for FortyTwo {
    type Args = ();
    type Sink = ElementSink<i64>;
    type State = ();
    type Outcome = ();

    const FALLIBLE: bool = false;

    fn id(&self) -> String {
        String::from("vortex.test.forty_two")
    }

    fn arg_name(&self, _index: usize) -> String {
        unreachable!("the function takes no arguments")
    }

    fn prepare<'a>(&self, _: ()) {}

    fn apply<'a>(&self, _: &(), _: (), output: &mut i64) {
        *output = 42;
    }

    fn reduce_encoded(&self, _: &()) -> Result<Option<Array<i64>>, Error> {
        Ok(None)
    }
}

#[test]
fn nullary_row_fn_executes_requested_rows() {
    let result = execute(&FortyTwo, &(), 3).unwrap();

    assert_eq!(rows(&result), vec![Some(42), Some(42), Some(42)]);
}

struct SumFour;

impl RowFn for SumFour {
    type Args = (i64, (i64, (i64, (i64, ()))));
    type Sink = ElementSink<i64>;
    type State = ();
    type Outcome = ();

    const FALLIBLE: bool = false;

    fn id(&self) -> String {
        String::from("vortex.test.sum_four")
    }

    fn arg_name(&self, index: usize) -> String {
        String::from(["a", "b", "c", "d"][index])
    }

    fn prepare<'a>(&self, _: <Self::Args as ElementTuple>::ConstElems<'a>) {}

    fn apply<'a>(
        &self,
        _: &(),
        (a, (b, (c, (d, ())))): (i64, (i64, (i64, (i64, ())))),
        output: &mut i64,
    ) {
        *output = a + b + c + d;
    }

    fn reduce_encoded(
        &self,
        _: &<Self::Args as ElementTuple>::Args,
    ) -> Result<Option<Array<i64>>, Error> {
        Ok(None)
    }
}

#[test]
fn four_argument_row_fn_executes() {
    let args = (
        integers(&[1, 2]),
        (
            integers(&[10, 20]),
            (integers(&[100, 200]), (integers(&[1000, 2000]), ())),
        ),
    );

    let result = execute(&SumFour, &args, 2).unwrap();

    assert_eq!(rows(&result), vec![Some(1111), Some(2222)]);
    assert_eq!(display(&SumFour), "vortex.test.sum_four($, $, $, $)");
}

type ThreeI64s<R> = (i64, (i64, (i64, R)));

#[test]
fn tuples_are_supported_through_arity_twelve() {
    type TwelveI64s = ThreeI64s<ThreeI64s<ThreeI64s<ThreeI64s<()>>>>;

    assert_eq!(<() as ElementTuple>::ARITY, 0);
    assert_eq!(<TwelveI64s as ElementTuple>::ARITY, 12);
}

#[test]
fn kernel_flag_decides_fallibility() {
    assert!(!is_fallible::<Hypot>());
    assert!(is_fallible::<CheckedDiv>());
}

#[test]
fn fallible_apply_propagates_its_error() {
    let lhs = integers(&[10, 10]);
    let rhs = integers(&[2, 0]);

    let error = execute(&CheckedDiv, &(lhs, (rhs, ())), 2)
        .expect_err("a zero divisor must fail the execution");

    assert!(
        error.message().contains("division by zero"),
        "unexpected error: {}",
        error.message()
    );
}

/// The divisor's null slot holds a zero, which a dense pass would divide by. Filtering keeps the
/// fallible kernel away from it.
#[test]
fn fallible_apply_never_sees_rows_behind_nulls() {
    let lhs = integers(&[10, 10]);
    let rhs = Array::from_options(vec![Some(2i64), None], <i64 as Native>::stored_dtype());

    let result = execute(&CheckedDiv, &(lhs, (rhs, ())), 2).unwrap();
    assert_eq!(rows(&result), vec![Some(5), None]);

    let lhs = integers(&[10, 10]);
    let rhs = integers(&[2, 0]).mask(&Mask::from_bits(vec![true, false]));

    let result = execute(&CheckedDiv, &(lhs, (rhs, ())), 2).unwrap();
    assert_eq!(rows(&result), vec![Some(5), None]);
}

/// The function never declares a policy: the arguments and the outcome decide it.
#[test]
fn null_handling_follows_from_args_and_fallibility() {
    // Primitive arguments, infallible: nothing behind a null row can fault.
    assert_eq!(row_policy::<Hypot>(), RowPolicy::Dense);
    // `TestBytes` resolves a view into a data buffer, which is only meaningful for valid rows.
    assert_eq!(
        row_policy::<Shout>(),
        RowPolicy::ValidOnly { filtered_decode_cost: 0 }
    );
    // Fallible: a garbage row could raise an error of its own.
    assert_eq!(
        row_policy::<CheckedDiv>(),
        RowPolicy::ValidOnly { filtered_decode_cost: 0 }
    );
}

/// A `Utf8` column whose single null row carries a view naming a buffer that does not exist, at an
/// offset far past the end of the data.
fn hostile_views() -> Array<StoredView> {
    let hostile = StoredView {
        buffer_index: 9,
        offset: 4096,
        size: 64,
        buffers: Arc::new(vec![b"a longer string here".to_vec()]),
    };
    Array::from_values(
        vec![StoredView::of("a longer string here"), hostile],
        DType::Utf8(Nullability::Nullable),
    )
    .mask(&Mask::from_bits(vec![true, false]))
}

#[test]
fn primitive_element_conforms() {
    // The extremes sit at the rows that are then marked null.
    let array = Array::from_values(
        vec![i32::MAX, 1, i32::MIN, 2],
        <i32 as Native>::stored_dtype(),
    )
    .mask(&Mask::from_bits(vec![false, true, false, true]));

    assert!(
        assert_element_conforms::<i32>(array, &DType::Utf8(Nullability::NonNullable)).is_ok()
    );
}

#[test]
fn bool_element_conforms() {
    let array = Array::from_values(
        vec![true, true, false, true],
        <bool as Native>::stored_dtype(),
    )
    .mask(&Mask::from_bits(vec![false, true, true, false]));

    assert!(
        assert_element_conforms::<bool>(array, &DType::Utf8(Nullability::NonNullable)).is_ok()
    );
}

#[test]
fn test_bytes_element_conforms() {
    assert!(assert_element_conforms::<TestBytes>(
        hostile_views(),
        &DType::Bool(Nullability::NonNullable)
    )
    .is_ok());
}

#[test]
fn conformance_says_what_is_missing() {
    let int_dtype = <i32 as Native>::stored_dtype();
    let utf8 = DType::Utf8(Nullability::NonNullable);
    let partly_null = || {
        Array::from_options(vec![Some(1i32), None], <i32 as Native>::stored_dtype())
    };

    let no_null = Array::from_values(vec![1i32, 2], int_dtype.clone());
    assert_eq!(
        check_element_conforms::<i32>(no_null, &utf8).unwrap_err().message(),
        "conformance needs a null row to read behind, but every row of the i32 input is valid"
    );
    assert_eq!(
        check_element_conforms::<i32>(partly_null(), &int_dtype).unwrap_err().message(),
        "element accepted i32, which it was expected to reject"
    );
    let mistyped = Array::from_values(vec![1i32], utf8.clone());
    assert_eq!(
        assert_element_conforms::<i32>(mistyped, &utf8).unwrap_err().message(),
        "cannot read columns of dtype utf8"
    );
    assert!(check_element_conforms::<i32>(partly_null(), &utf8).is_ok());
}

#[test]
fn valid_rows_are_skipped_to_where_reading_nulls_is_unsafe() {
    let result = execute(&Shout, &(hostile_views(), ()), 2).unwrap();
    assert_eq!(
        rows(&result),
        vec![Some(Text(String::from("A LONGER STRING HERE"))), None]
    );
}

#[test]
fn columns_are_type_checked_before_they_run() {
    let error = execute(&Shout, &(
        Array::from_values(vec![StoredView::of("x")], DType::Bool(Nullability::NonNullable)),
        (),
    ), 1)
    .unwrap_err();
    assert_eq!(error.message(), "cannot read columns of dtype bool");

    let error = execute(&CheckedDiv, &(integers(&[1, 2]), (integers(&[1]), ())), 2).unwrap_err();
    assert_eq!(error.message(), "a column does not have exactly 2 rows");
}
