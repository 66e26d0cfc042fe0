//! Fallible input decoding and its effect on execution strategy.

use vortex_row::array::Array;
use vortex_row::dtype::{DType, Nullability};
use vortex_row::error::Error;
use vortex_row::row::element::InputElement;
use vortex_row::row::lift::execute;
use vortex_row::row::row_fn::{is_coherent, is_fallible, row_policy, RowFn, RowPolicy};
use vortex_row::row::sink::ElementSink;

/// Stands in for an element that parses its bytes, like a geometry: malformed bytes in a valid row
/// are a domain error, so decoding can fail on otherwise legal input.
struct ParsedBytes;

impl InputElement for ParsedBytes {
    type Value = Vec<u8>;
    type Column = Vec<usize>;
    type Varying<'a> = &'a Vec<usize>;
    type Elem<'a> = usize;

    const DENSE_SAFE: bool = true;
    const DECODE_FALLIBLE: bool = true;
    const FILTERED_DECODE_COST: usize = 0;

    fn validate(_dtype: &DType) -> Result<(), Error> {
        Ok(())
    }

    fn decode(array: &Array<Vec<u8>>) -> Result<Vec<usize>, Error> {
        (0..array.len())
            .map(|i| match array.payload(i) {
                Some(bytes) if bytes.first() == Some(&0xff) => {
                    Err(Error::Message(String::from("malformed bytes")))
                }
                Some(bytes) => Ok(bytes.len()),
                None => Ok(0),
            })
            .collect()
    }

    fn decode_null_tolerant(_: &Array<Vec<u8>>) -> Result<Option<Vec<usize>>, Error> {
        Ok(None)
    }

    fn get<'a>(column: &'a Vec<usize>, index: usize) -> usize {
        column[index]
    }

    fn varying<'a>(column: &'a Vec<usize>) -> &'a Vec<usize> {
        column
    }

    fn varying_len<'a>(varying: &&'a Vec<usize>) -> usize {
        varying.len()
    }

    fn get_varying<'a>(varying: &&'a Vec<usize>, index: usize) -> usize
    where
        Self: 'a,
    {
        varying[index]
    }
}

/// Its row computation is total; only the decode can fail.
struct TotalKernelOverParsedInput;

impl RowFn for TotalKernelOverParsedInput {
    type Args = (ParsedBytes, ());
    type Sink = ElementSink<u64>;
    type State = ();
    type Outcome = ();

    const FALLIBLE: bool = true;

    fn id(&self) -> String {
        String::from("vortex.test.total_over_parsed")
    }

    fn arg_name(&self, index: usize) -> String {
        String::from(["input"][index])
    }

    fn prepare<'a>(&self, _: (Option<usize>, ())) {}

    fn apply<'a>(&self, _: &(), (len, ()): (usize, ()), output: &mut u64) {
        *output = len as u64;
    }

    fn reduce_encoded(&self, _: &(Array<Vec<u8>>, ())) -> Result<Option<Array<u64>>, Error> {
        Ok(None)
    }
}

/// The row computation is infallible, so reading only what it returns would report `false`.
#[test]
fn a_fallible_decode_makes_the_function_fallible() {
    assert!(is_fallible::<TotalKernelOverParsedInput>());
    assert!(is_coherent::<TotalKernelOverParsedInput>());
}

/// And it must not run densely: rows behind nulls would be parsed too.
#[test]
fn a_fallible_decode_forces_filtering() {
    assert_eq!(
        row_policy::<TotalKernelOverParsedInput>(),
        RowPolicy::ValidOnly { filtered_decode_cost: 0 }
    );
}

#[test]
fn malformed_bytes_fail_only_where_they_are_valid() {
    let dtype = DType::Binary(Nullability::NonNullable);
    let values = || vec![vec![1, 2, 3], vec![0xff], vec![4]];

    let array = Array::from_values(values(), dtype.clone());
    let error = execute(&TotalKernelOverParsedInput, &(array, ()), 3).unwrap_err();
    assert_eq!(error.message(), "malformed bytes");

    let masked = Array::from_values(values(), dtype)
        .mask(&vortex_row::mask::Mask::from_bits(vec![true, false, true]));
    let result = execute(&TotalKernelOverParsedInput, &(masked, ()), 3).unwrap();
    let rows: Vec<Option<u64>> = (0..3).map(|i| result.row(i).copied()).collect();
    assert_eq!(rows, vec![Some(3), None, Some(1)]);
}
