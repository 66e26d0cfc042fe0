//! Row functions that choose their element types per batch.

use std::marker::PhantomData;

use vortex_row::array::Array;
use vortex_row::dtype::{DType, Nullability, PType};
use vortex_row::error::Error;
use vortex_row::row::element::Native;
use vortex_row::row::lift::execute;
use vortex_row::row::row_fn::RowFn;
use vortex_row::row::sink::ElementSink;

/// The larger of two integers of one width.
struct Max<T>(PhantomData<T>);

impl<T: Native + Ord> RowFn for Max<T> {
    type Args = (T, (T, ()));
    type Sink = ElementSink<T>;
    type State = ();
    type Outcome = ();

    const FALLIBLE: bool = false;

    fn id(&self) -> String {
        String::from("vortex.test.int_max")
    }

    fn arg_name(&self, index: usize) -> String {
        String::from(["lhs", "rhs"][index])
    }

    fn prepare<'a>(&self, _: (Option<T>, (Option<T>, ()))) {}

    fn apply<'a>(&self, _: &(), (a, (b, ())): (T, (T, ())), output: &mut T) {
        *output = a.max(b);
    }

    fn reduce_encoded(&self, _: &(Array<T>, (Array<T>, ()))) -> Result<Option<Array<T>>, Error> {
        Ok(None)
    }
}

/// The width at which columns of these types are compared.
fn dispatch(args: &[DType]) -> Result<PType, Error> {
    let DType::Primitive(ptype, _) = args[0] else {
        return Err(Error::Message(String::from("int_max requires primitive inputs")));
    };
    if !ptype.is_int() {
        return Err(Error::Message(format!(
            "int_max requires integer inputs, got {}",
            ptype.name()
        )));
    }
    Ok(ptype)
}

fn max_of<T: Native + Ord>(lhs: &[T], rhs: &[T]) -> (PType, Vec<Option<T>>) {
    let lhs = Array::from_values(lhs.to_vec(), T::stored_dtype());
    let rhs = Array::from_values(rhs.to_vec(), T::stored_dtype());
    let width = dispatch(&[lhs.dtype().clone(), rhs.dtype().clone()]).unwrap();
    let len = lhs.len();
    let result = execute(&Max::<T>(PhantomData), &(lhs, (rhs, ())), len).unwrap();
    (width, (0..len).map(|i| result.row(i).copied()).collect())
}

#[test]
fn dispatches_at_each_integer_width() {
    assert_eq!(
        max_of(&[1i16, 9, 3], &[4i16, 2, 3]),
        (PType::I16, vec![Some(4), Some(9), Some(3)])
    );
    assert_eq!(
        max_of(&[1i64, 9, 3], &[4i64, 2, 3]),
        (PType::I64, vec![Some(4), Some(9), Some(3)])
    );
    assert_eq!(
        max_of(&[1u8, 9, 3], &[4u8, 2, 3]),
        (PType::U8, vec![Some(4), Some(9), Some(3)])
    );
}

#[test]
fn rejects_a_float_width() {
    let float = DType::Primitive(PType::F64, Nullability::NonNullable);

    let error = dispatch(&[float.clone(), float.clone()])
        .expect_err("a float width must be rejected at construction");
    assert!(
        error.message().contains("integer inputs"),
        "unexpected error: {}",
        error.message()
    );

    let lhs = Array::from_values(vec![1i64], float.clone());
    let rhs = Array::from_values(vec![2i64], float);
    let error = execute(&Max::<i64>(PhantomData), &(lhs, (rhs, ())), 1).unwrap_err();
    assert_eq!(error.message(), "cannot read columns of dtype f64");
}
