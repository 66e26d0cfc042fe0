//! Preparing batch-constant state once before the row loop.

use std::cell::Cell;

use vortex_row::array::Array;
use vortex_row::dtype::{DType, Nullability, PType};
use vortex_row::error::Error;
use vortex_row::mask::Mask;
use vortex_row::row::element::Native;
use vortex_row::row::lift::execute;
use vortex_row::row::row_fn::RowFn;
use vortex_row::row::sink::ElementSink;

/// A double-precision element.
#[derive(Clone, Copy, Debug, PartialEq)]
struct F64(f64);

impl Native for F64 {
    fn stored_dtype() -> DType {
        DType::Primitive(PType::F64, Nullability::NonNullable)
    }

    fn zero() -> Self {
        F64(0.0)
    }
}

fn column(values: &[f64]) -> Array<F64> {
    Array::from_values(values.iter().map(|&x| F64(x)).collect(), F64::stored_dtype())
}

fn nullable(values: &[Option<f64>]) -> Array<F64> {
    Array::from_options(
        values.iter().map(|x| x.map(F64)).collect(),
        F64::stored_dtype(),
    )
}

fn constant(value: f64, len: usize) -> Array<F64> {
    Array::constant(F64(value), F64::stored_dtype(), len)
}

fn rows(array: &Array<F64>) -> Vec<Option<f64>> {
    (0..array.len()).map(|i| array.row(i).map(|x| x.0)).collect()
}

/// `sqrt(x^2 + y^2)`: the square of any constant operand is hoisted out of the row loop. Which
/// operands the last preparation saw as constant is recorded as a bitmask (bit 0 for `x`, bit 1 for
/// `y`).
struct PreparedHypot {
    seen: Cell<u8>,
}

impl PreparedHypot {
    fn new() -> Self {
        PreparedHypot { seen: Cell::new(u8::MAX) }
    }
}

impl RowFn for PreparedHypot {
    type Args = (F64, (F64, ()));
    type Sink = ElementSink<F64>;
    type State = (Option<f64>, Option<f64>);
    type Outcome = ();

    const FALLIBLE: bool = false;

    fn id(&self) -> String {
        String::from("vortex.test.prepared_hypot")
    }

    fn arg_name(&self, index: usize) -> String {
        String::from(["x", "y"][index])
    }

    fn prepare<'a>(&self, (x, (y, ())): (Option<F64>, (Option<F64>, ()))) -> Self::State {
        self.seen
            .set(u8::from(x.is_some()) | (u8::from(y.is_some()) << 1));
        (x.map(|x| x.0 * x.0), y.map(|y| y.0 * y.0))
    }

    fn apply<'a>(
        &self,
        (x_sq, y_sq): &Self::State,
        (x, (y, ())): (F64, (F64, ())),
        output: &mut F64,
    ) {
        *output = F64((x_sq.unwrap_or(x.0 * x.0) + y_sq.unwrap_or(y.0 * y.0)).sqrt());
    }

    fn reduce_encoded(
        &self,
        _: &(Array<F64>, (Array<F64>, ())),
    ) -> Result<Option<Array<F64>>, Error> {
        Ok(None)
    }
}

/// A constant operand reaches `prepare` as `Some`, and the result is identical to the same value
/// expanded into a full column, which reaches `prepare` as `None`.
#[test]
fn a_constant_operand_matches_its_expanded_column() {
    let hypot = PreparedHypot::new();
    let x = column(&[3.0, 5.0, 8.0]);

    let from_constant =
        execute(&hypot, &(x.duplicate(), (constant(4.0, 3), ())), 3).unwrap();
    assert_eq!(hypot.seen.get(), 0b10);

    let from_expanded = execute(&hypot, &(x, (column(&[4.0, 4.0, 4.0]), ())), 3).unwrap();
    assert_eq!(hypot.seen.get(), 0b00);

    assert_eq!(rows(&from_constant), rows(&from_expanded));
    assert_eq!(from_constant.dtype(), from_expanded.dtype());
}

/// A masked constant (the same value in every row, some rows null) is a batch constant too: the
/// nulls are the lifting's, so `prepare` sees the value and the null rows stay null in the result.
#[test]
fn a_masked_constant_operand_is_seen_as_constant() {
    let hypot = PreparedHypot::new();
    let x = column(&[3.0, 5.0, 8.0]);
    let masked_constant = constant(4.0, 3).mask(&Mask::from_bits(vec![true, false, true]));

    let result = execute(&hypot, &(x, (masked_constant, ())), 3).unwrap();

    assert_eq!(hypot.seen.get(), 0b10);
    assert_eq!(rows(&result), vec![Some(5.0), None, Some((80.0f64).sqrt())]);
}

/// With no constant operand every constant slot is `None` and the loop computes exactly what unit
/// preparation would.
#[test]
fn all_varying_operands_prepare_nothing() {
    let hypot = PreparedHypot::new();

    let result = execute(
        &hypot,
        &(column(&[3.0, 5.0]), (column(&[4.0, 12.0]), ())),
        2,
    )
    .unwrap();

    assert_eq!(hypot.seen.get(), 0b00);
    assert_eq!(rows(&result), vec![Some(5.0), Some(13.0)]);
}

/// Two constant operands are folded to a single-row execution by the lifting, and that row still
/// goes through `prepare`, seeing both constants.
#[test]
fn all_constant_operands_fold_and_still_prepare() {
    let hypot = PreparedHypot::new();

    let result = execute(&hypot, &(constant(3.0, 4), (constant(4.0, 4), ())), 4).unwrap();

    assert_eq!(hypot.seen.get(), 0b11);
    assert_eq!(
        rows(&result),
        vec![Some(5.0), Some(5.0), Some(5.0), Some(5.0)]
    );
    assert!(result.is_constant());
}

/// Null rows pass through the prepared path exactly as through unit preparation.
#[test]
fn nulls_propagate_through_the_prepared_path() {
    let hypot = PreparedHypot::new();
    let x = nullable(&[Some(3.0), None, Some(8.0)]);

    let result = execute(&hypot, &(x, (constant(4.0, 3), ())), 3).unwrap();

    assert_eq!(rows(&result), vec![Some(5.0), None, Some((80.0f64).sqrt())]);
}

/// An empty batch has no row to take a constant from, so every operand of it varies.
#[test]
fn an_empty_batch_has_no_constants() {
    let hypot = PreparedHypot::new();

    let result = execute(&hypot, &(column(&[]), (constant(4.0, 0), ())), 0).unwrap();

    assert_eq!(hypot.seen.get(), 0b00);
    assert_eq!(result.len(), 0);
}
