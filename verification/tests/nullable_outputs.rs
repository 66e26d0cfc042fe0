//! Row output dtypes cannot introduce their own nulls.

use vortex_row::array::Array;
use vortex_row::dtype::{DType, Nullability, PType};
use vortex_row::error::Error;
use vortex_row::row::result::DeferredError;
use vortex_row::row::row_fn::{return_dtype, RowFn};
use vortex_row::row::sink::{ElementSink, OutputElement, OutputSink};

struct NullableI64(i64);

impl OutputElement for NullableI64 {
    fn element_dtype() -> DType {
        DType::Primitive(PType::I64, Nullability::Nullable)
    }

    fn placeholder() -> Self {
        Self(0)
    }

    fn build(values: Vec<Self>) -> Array<Self> {
        Array::from_values(values, Self::element_dtype())
    }
}

struct NullableSink(Vec<()>);

impl OutputSink for NullableSink {
    type Rows = Vec<()>;
    type Slot = ();
    type Value = i64;

    fn sink_dtype(_args: &[DType]) -> Result<DType, Error> {
        Ok(DType::Primitive(PType::I64, Nullability::Nullable))
    }

    fn with_capacity(rows: usize, _dtype: &DType) -> Result<Self, Error> {
        Ok(Self(vec![(); rows]))
    }

    fn rows(&mut self) -> &mut Vec<()> {
        &mut self.0
    }

    fn row_count_matches(rows: &Vec<()>, row_count: usize) -> bool {
        rows.len() == row_count
    }

    fn row<'a>(rows: &'a mut Vec<()>, index: usize) -> &'a mut () {
        &mut rows[index]
    }

    fn finish(self, _error: DeferredError) -> Result<Array<i64>, Error> {
        Ok(Array::from_options(
            Vec::new(),
            DType::Primitive(PType::I64, Nullability::Nullable),
        ))
    }
}

struct NullableElementFn;

impl RowFn for NullableElementFn {
    type Args = (i64, ());
    type Sink = ElementSink<NullableI64>;
    type State = ();
    type Outcome = ();

    const FALLIBLE: bool = false;

    fn id(&self) -> String {
        String::from("vortex.test.nullable_element")
    }

    fn arg_name(&self, index: usize) -> String {
        String::from(["input"][index])
    }

    fn prepare<'a>(&self, _: (Option<i64>, ())) {}

    fn apply<'a>(&self, _: &(), (value, ()): (i64, ()), output: &mut NullableI64) {
        *output = NullableI64(value);
    }

    fn reduce_encoded(
        &self,
        _: &(Array<i64>, ()),
    ) -> Result<Option<Array<NullableI64>>, Error> {
        Ok(None)
    }
}

struct NullableSinkFn;

impl RowFn for NullableSinkFn {
    type Args = (i64, ());
    type Sink = NullableSink;
    type State = ();
    type Outcome = ();

    const FALLIBLE: bool = false;

    fn id(&self) -> String {
        String::from("vortex.test.nullable_sink")
    }

    fn arg_name(&self, index: usize) -> String {
        String::from(["input"][index])
    }

    fn prepare<'a>(&self, _: (Option<i64>, ())) {}

    fn apply<'a>(&self, _: &(), _: (i64, ()), _: &mut ()) {}

    fn reduce_encoded(&self, _: &(Array<i64>, ())) -> Result<Option<Array<i64>>, Error> {
        Ok(None)
    }
}

#[test]
fn nullable_element_dtype_is_rejected() {
    let input = DType::Primitive(PType::I64, Nullability::NonNullable);
    let error = return_dtype::<NullableElementFn>(&[input]).unwrap_err();

    assert!(error.message().contains("non-nullable dtype"), "{}", error.message());
}

#[test]
fn nullable_sink_dtype_is_rejected() {
    let input = DType::Primitive(PType::I64, Nullability::NonNullable);
    let error = return_dtype::<NullableSinkFn>(&[input]).unwrap_err();

    assert!(error.message().contains("non-nullable dtype"), "{}", error.message());
    assert_eq!(
        error.message(),
        "row output sinks must declare a non-nullable dtype, got i64?"
    );
}
