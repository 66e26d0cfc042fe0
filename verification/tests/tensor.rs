//! Functions over tensor and vector columns.

use half::f16;
use num_traits::Float;
use vortex_row::array::Array;
use vortex_row::dtype::{DType, ExtDType, Nullability, PType};
use vortex_row::error::Error;
use vortex_row::mask::Mask;
use vortex_row::row::conformance::assert_element_conforms;
use vortex_row::row::element::Native;
use vortex_row::row::lift::execute;
use vortex_row::row::row_fn::{display, row_policy, RowFn, RowPolicy};
use vortex_row::row::sink::ElementSink;
use vortex_row::tensor::element::{tensor_element_ptype, Arithmetic, TensorRow};
use vortex_row::tensor::inner_product::{inner_product_row, InnerProduct};
use vortex_row::tensor::l2_norm::L2Norm;
use vortex_row::tensor::normalized::{NormalizedArray, TensorOperand};

/// A float width.
trait Width: Float + 'static {
    const PTYPE: PType;
}

impl Width for f16 {
    const PTYPE: PType = PType::F16;
}

impl Width for f32 {
    const PTYPE: PType = PType::F32;
}

impl Width for f64 {
    const PTYPE: PType = PType::F64;
}

/// An element of some float width.
#[derive(Clone, Copy, Debug, PartialEq)]
struct Real<T>(T);

impl<T: Width> Native for Real<T> {
    fn stored_dtype() -> DType {
        DType::Primitive(T::PTYPE, Nullability::NonNullable)
    }

    fn zero() -> Self {
        Real(T::zero())
    }
}

impl<T: Width> Arithmetic for Real<T> {
    fn nothing() -> Self {
        Real(T::zero())
    }

    fn plus(self, other: Self) -> Self {
        Real(self.0 + other.0)
    }

    fn times(self, other: Self) -> Self {
        Real(self.0 * other.0)
    }

    fn root(self) -> Self {
        Real(self.0.sqrt())
    }
}

fn tensor_rows<T: Width>(width: usize, elements: &[T]) -> Vec<Vec<Real<T>>> {
    elements
        .chunks(width)
        .map(|row| row.iter().map(|&x| Real(x)).collect())
        .collect()
}

fn tensor_array<T: Width>(shape: &[usize], elements: &[T]) -> Array<Vec<Real<T>>> {
    let dtype = DType::Extension(ExtDType::FixedShapeTensor {
        element: T::PTYPE,
        shape: shape.to_vec(),
        nullability: Nullability::NonNullable,
    });
    Array::from_values(tensor_rows(shape.iter().product(), elements), dtype)
}

fn vector_dtype<T: Width>(dimensions: u32) -> DType {
    DType::Extension(ExtDType::Vector {
        element: T::PTYPE,
        dimensions,
        nullability: Nullability::NonNullable,
    })
}

fn vector_array<T: Width>(dimensions: u32, elements: &[T]) -> Array<Vec<Real<T>>> {
    Array::from_values(
        tensor_rows(dimensions as usize, elements),
        vector_dtype::<T>(dimensions),
    )
}

fn doubles(values: &[f64]) -> Array<Real<f64>> {
    Array::from_values(
        values.iter().map(|&x| Real(x)).collect(),
        Real::<f64>::stored_dtype(),
    )
}

fn nullable_doubles(values: &[Option<f64>]) -> Array<Real<f64>> {
    Array::from_options(
        values.iter().map(|x| x.map(Real)).collect(),
        Real::<f64>::stored_dtype(),
    )
}

fn normalized_array(
    shape: &[usize],
    elements: &[f64],
    norms: &[f64],
) -> NormalizedArray<Real<f64>> {
    NormalizedArray::try_new(tensor_array(shape, elements), doubles(norms)).unwrap()
}

fn rows<T: Width>(array: &Array<Real<T>>) -> Vec<Option<T>> {
    (0..array.len()).map(|i| array.row(i).map(|x| x.0)).collect()
}

fn assert_close(actual: &[Option<f64>], expected: &[Option<f64>]) {
    assert_eq!(actual.len(), expected.len());
    for (actual, expected) in actual.iter().zip(expected) {
        match (actual, expected) {
            (Some(actual), Some(expected)) => {
                assert!((actual - expected).abs() < 1e-10, "{actual} is not close to {expected}")
            }
            _ => assert_eq!(actual, expected),
        }
    }
}

fn operands_product(
    lhs: TensorOperand<'_, Real<f64>>,
    rhs: TensorOperand<'_, Real<f64>>,
) -> Result<Array<Real<f64>>, Error> {
    InnerProduct::default().execute_operands(&lhs, &rhs)
}

/// Evaluates the inner product between two tensor arrays.
fn eval_inner_product(lhs: Array<Vec<Real<f64>>>, rhs: Array<Vec<Real<f64>>>) -> Vec<Option<f64>> {
    let product = operands_product(TensorOperand::Plain(&lhs), TensorOperand::Plain(&rhs));
    rows(&product.unwrap())
}

#[test]
fn single_row() {
    let cases: [(&[f64], &[f64], f64); 4] = [
        // Orthogonal: [1, 0] . [0, 1] = 0.
        (&[1.0, 0.0], &[0.0, 1.0], 0.0),
        // Parallel: [3, 4] . [3, 4] = 9 + 16 = 25.
        (&[3.0, 4.0], &[3.0, 4.0], 25.0),
        // Antiparallel: [1, 2] . [-1, -2] = -1 + -4 = -5.
        (&[1.0, 2.0], &[-1.0, -2.0], -5.0),
        // Scaled: [2, 0] . [3, 0] = 6.
        (&[2.0, 0.0], &[3.0, 0.0], 6.0),
    ];
    for (lhs, rhs, expected) in cases {
        let lhs = tensor_array(&[2], lhs);
        let rhs = tensor_array(&[2], rhs);
        assert_close(&eval_inner_product(lhs, rhs), &[Some(expected)]);
    }
}

#[test]
fn inner_product_multiple_rows() {
    let lhs = tensor_array(
        &[3],
        &[
            1.0, 0.0, 0.0, // tensor 0
            3.0, 4.0, 0.0, // tensor 1
            1.0, 1.0, 1.0, // tensor 2
        ],
    );
    let rhs = tensor_array(
        &[3],
        &[
            0.0, 1.0, 0.0, // tensor 0: dot = 0
            3.0, 4.0, 0.0, // tensor 1: dot = 25
            2.0, 2.0, 2.0, // tensor 2: dot = 6
        ],
    );
    assert_close(
        &eval_inner_product(lhs, rhs),
        &[Some(0.0), Some(25.0), Some(6.0)],
    );
}

#[test]
fn vector_inner_product() {
    let lhs = vector_array(
        2,
        &[
            3.0, 4.0, // vector 0
            1.0, 0.0, // vector 1
        ],
    );
    let rhs = vector_array(
        2,
        &[
            3.0, 4.0, // vector 0: dot = 25
            0.0, 1.0, // vector 1: dot = 0
        ],
    );
    assert_close(&eval_inner_product(lhs, rhs), &[Some(25.0), Some(0.0)]);
}

#[test]
fn inner_product_null_input_row() {
    // 3 rows of dim-2 vectors. Row 1 of lhs is masked as null.
    let lhs = tensor_array(&[2], &[1.0, 2.0, 3.0, 4.0, 5.0, 6.0]);
    let rhs = tensor_array(&[2], &[7.0, 8.0, 9.0, 10.0, 11.0, 12.0]);
    let lhs = lhs.mask(&Mask::from_bits(vec![true, false, true]));

    // Row 0: 1*7 + 2*8 = 23, row 1: null, row 2: 5*11 + 6*12 = 127.
    assert_close(
        &eval_inner_product(lhs, rhs),
        &[Some(23.0), None, Some(127.0)],
    );
}

#[test]
fn rejects_non_extension_dtype() {
    let plain = || {
        Array::from_values(
            vec![vec![Real(1.0)], vec![Real(2.0)]],
            DType::Primitive(PType::F64, Nullability::NonNullable),
        )
    };
    let (lhs, rhs): (Array<Vec<Real<f64>>>, Array<Vec<Real<f64>>>) = (plain(), plain());
    let result = InnerProduct::default().try_new_array(lhs.len(), &lhs, &rhs);
    assert_eq!(
        result.err().map(|error| error.message()),
        Some(String::from("a tensor function requires tensor columns, got f64"))
    );
}

#[test]
fn rejects_mismatched_dtypes() {
    let lhs = tensor_array(&[2], &[1.0f64, 2.0]);
    let rhs = vector_array(2, &[3.0f64, 4.0]);
    let result = InnerProduct::default().try_new_array(lhs.len(), &lhs, &rhs);
    assert_eq!(
        result.err().map(|error| error.message()),
        Some(String::from(
            "a tensor function requires columns of one dtype, got \
             vortex.tensor.fixed_shape_tensor(f64) and vortex.tensor.vector(f64)[2]"
        ))
    );
}

#[test]
fn rejects_integer_elements_and_no_columns() {
    let integers = DType::Extension(ExtDType::Vector {
        element: PType::I32,
        dimensions: 2,
        nullability: Nullability::NonNullable,
    });
    assert_eq!(
        tensor_element_ptype(&[integers]).unwrap_err().message(),
        "a tensor function requires float elements, got i32"
    );
    assert_eq!(
        tensor_element_ptype(&[]).unwrap_err().message(),
        "a tensor function requires a tensor column"
    );
    assert_eq!(
        tensor_element_ptype(&[vector_dtype::<f32>(2), vector_dtype::<f32>(2).as_nullable()])
            .unwrap(),
        PType::F32
    );
}

#[test]
fn both_normalized() {
    // LHS: [3.0, 4.0] = Normalized([0.6, 0.8], 5.0).
    // RHS: [1.0, 0.0] = Normalized([1.0, 0.0], 1.0).
    // dot([3.0, 4.0], [1.0, 0.0]) = 3.0.
    let lhs = normalized_array(&[2], &[0.6, 0.8], &[5.0]);
    let rhs = normalized_array(&[2], &[1.0, 0.0], &[1.0]);

    // Expected: 5.0 * 1.0 * dot([0.6, 0.8], [1.0, 0.0]) = 5.0 * 0.6 = 3.0.
    let product = operands_product(
        TensorOperand::Normalized(&lhs),
        TensorOperand::Normalized(&rhs),
    );
    assert_close(&rows(&product.unwrap()), &[Some(3.0)]);
}

#[test]
fn both_normalized_multiple_rows() {
    // Row 0: [3.0, 4.0] dot [3.0, 4.0] = 25.0.
    // Row 1: [1.0, 0.0] dot [0.0, 1.0] = 0.0.
    let lhs = normalized_array(&[2], &[0.6, 0.8, 1.0, 0.0], &[5.0, 1.0]);
    let rhs = normalized_array(&[2], &[0.6, 0.8, 0.0, 1.0], &[5.0, 1.0]);

    let product = operands_product(
        TensorOperand::Normalized(&lhs),
        TensorOperand::Normalized(&rhs),
    );
    assert_close(&rows(&product.unwrap()), &[Some(25.0), Some(0.0)]);
}

#[test]
fn one_side_normalized_lhs() {
    // LHS: Normalized([0.6, 0.8], 5.0) representing [3.0, 4.0].
    // RHS: plain [1.0, 2.0].
    // dot([3.0, 4.0], [1.0, 2.0]) = 3.0 + 8.0 = 11.0.
    let lhs = normalized_array(&[2], &[0.6, 0.8], &[5.0]);
    let rhs = tensor_array(&[2], &[1.0, 2.0]);

    let product = operands_product(TensorOperand::Normalized(&lhs), TensorOperand::Plain(&rhs));
    assert_close(&rows(&product.unwrap()), &[Some(11.0)]);
}

#[test]
fn one_side_normalized_rhs() {
    // LHS: plain [1.0, 2.0].
    // RHS: Normalized([0.6, 0.8], 5.0) representing [3.0, 4.0].
    // dot([1.0, 2.0], [3.0, 4.0]) = 3.0 + 8.0 = 11.0.
    let lhs = tensor_array(&[2], &[1.0, 2.0]);
    let rhs = normalized_array(&[2], &[0.6, 0.8], &[5.0]);

    let product = operands_product(TensorOperand::Plain(&lhs), TensorOperand::Normalized(&rhs));
    assert_close(&rows(&product.unwrap()), &[Some(11.0)]);
}

#[test]
fn both_normalized_null_norms() {
    // Row 0: valid, row 1: null (via nullable norms on lhs).
    let normalized_l = tensor_array(&[2], &[0.6, 0.8, 1.0, 0.0]);
    let norms_l = nullable_doubles(&[Some(5.0), None]);
    let lhs = NormalizedArray::try_new(normalized_l, norms_l).unwrap();
    let rhs = normalized_array(&[2], &[0.6, 0.8, 1.0, 0.0], &[5.0, 1.0]);

    let product = operands_product(
        TensorOperand::Normalized(&lhs),
        TensorOperand::Normalized(&rhs),
    );

    // Row 0: 5.0 * 5.0 * dot([0.6, 0.8], [0.6, 0.8]) = 25.0, row 1: null.
    assert_close(&rows(&product.unwrap()), &[Some(25.0), None]);
}

#[test]
fn plain_operands_are_not_reduced() {
    let lhs = tensor_array(&[2], &[1.0f64, 2.0]);
    let rhs = tensor_array(&[2], &[3.0f64, 4.0]);
    let reduced = InnerProduct::default()
        .reduce_encoded_operands(&TensorOperand::Plain(&lhs), &TensorOperand::Plain(&rhs));
    assert!(matches!(reduced, Ok(None)));
}

#[test]
fn norms_must_have_a_row_for_each_direction() {
    let result = NormalizedArray::try_new(tensor_array(&[1], &[1.0f64, 2.0]), doubles(&[1.0]));
    assert_eq!(
        result.unwrap_err().message(),
        "a column does not have exactly 2 rows"
    );
}

#[test]
fn the_inner_product_describes_itself() {
    let inner_product = InnerProduct::<Real<f64>>::default();
    assert_eq!(display(&inner_product), "vortex.tensor.inner_product($, $)");
    assert_eq!(RowFn::serialize(&inner_product).unwrap(), Some(vec![]));
    assert!(RowFn::deserialize(&inner_product, &[]).is_ok());
    assert_eq!(row_policy::<InnerProduct<Real<f64>>>(), RowPolicy::Dense);
    assert_eq!(
        inner_product
            .dispatch(&[vector_dtype::<f64>(2), vector_dtype::<f64>(2)])
            .unwrap(),
        PType::F64
    );
    assert_eq!(InnerProduct::<Real<f64>>::default().arg_name(0), "lhs");
    assert_eq!(InnerProduct::<Real<f64>>::default().arg_name(1), "rhs");
    assert_eq!(L2Norm::<Real<f64>>::default().arg_name(0), "input");
}

#[test]
fn a_row_product_adds_up_in_order() {
    let a = [Real(1e16), Real(1.0), Real(-1e16)];
    let b = [Real(1.0), Real(1.0), Real(1.0)];
    assert_eq!(inner_product_row(&a, &b).0, (1e16 + 1.0) - 1e16);
    assert_eq!(inner_product_row(&a[..1], &b), Real(1e16));
    assert_eq!(inner_product_row::<Real<f64>>(&[], &[]), Real(0.0));
}

fn eval_l2_norm(input: Array<Vec<Real<f64>>>) -> Vec<Option<f64>> {
    let norms = L2Norm::default().execute_operand(&TensorOperand::Plain(&input));
    rows(&norms.unwrap())
}

#[test]
fn known_norms() {
    let cases: [(&[usize], &[f64], f64); 4] = [
        (&[2], &[3.0, 4.0], 5.0),
        (&[3], &[0.0, 0.0, 0.0], 0.0),
        (&[1], &[7.0], 7.0),
        (&[2], &[-3.0, -4.0], 5.0),
    ];
    for (shape, elements, expected) in cases {
        assert_close(&eval_l2_norm(tensor_array(shape, elements)), &[Some(expected)]);
    }
}

#[test]
fn l2_norm_multiple_rows() {
    let arr = tensor_array(
        &[3],
        &[
            3.0, 4.0, 0.0, // norm = 5.0
            0.0, 0.0, 0.0, // norm = 0.0
            1.0, 1.0, 1.0, // norm = sqrt(3)
        ],
    );
    assert_close(
        &eval_l2_norm(arr),
        &[Some(5.0), Some(0.0), Some(3.0_f64.sqrt())],
    );
}

#[test]
fn vector_multiple_rows() {
    let arr = vector_array(
        3,
        &[
            1.0, 0.0, 0.0, // norm = 1.0
            3.0, 4.0, 0.0, // norm = 5.0
        ],
    );
    assert_close(&eval_l2_norm(arr), &[Some(1.0), Some(5.0)]);
}

#[test]
fn l2_norm_null_input_row() {
    // 2 rows of dim-2 vectors. Row 1 is masked as null.
    let arr = tensor_array(&[2], &[3.0, 4.0, 0.0, 0.0]);
    let arr = arr.mask(&Mask::from_bits(vec![true, false]));

    // Row 0: norm = 5.0, row 1: null.
    assert_close(&eval_l2_norm(arr), &[Some(5.0), None]);
}

/// A constant input that is not null should short-circuit to a constant output whose scalar is the
/// precomputed norm.
#[test]
fn constant_non_null_input_yields_constant_output() {
    let input = Array::constant(vec![Real(3.0f64), Real(4.0)], vector_dtype::<f64>(2), 4);

    let output = execute(&L2Norm::default(), &(input, ()), 4).unwrap();

    let norm = output
        .scalar()
        .expect("a norm over a constant input must produce a constant output");
    assert_eq!(output.len(), 4);
    assert_close(&[Some(norm.0)], &[Some(5.0)]);
}

/// A column that repeats one stored row is folded just like a top-level constant instead of
/// recomputing the same norm once per row.
#[test]
fn extension_backed_constant_yields_constant_output() {
    let storage = Array::from_values(
        vec![vec![Real(3.0f64), Real(4.0)]],
        vector_dtype::<f64>(2),
    );
    let input = storage.broadcast(4);

    let output = execute(&L2Norm::default(), &(input, ()), 4).unwrap();

    let norm = output
        .scalar()
        .expect("a norm over constant-backed storage must produce a constant output");
    assert_eq!(output.len(), 4);
    assert_close(&[Some(norm.0)], &[Some(5.0)]);
}

/// A constant input whose scalar is null should short-circuit to a null constant of the correct
/// primitive dtype and length.
#[test]
fn constant_null_input_yields_null_constant_output() {
    let input: Array<Vec<Real<f64>>> = Array::null_constant(&vector_dtype::<f64>(2), 3);

    let output = execute(&L2Norm::default(), &(input, ()), 3).unwrap();

    assert!(output.is_null_constant());
    assert_eq!(output.len(), 3);
    assert_eq!(
        *output.dtype(),
        DType::Primitive(PType::F64, Nullability::Nullable)
    );
}

/// An `f32` column must run at `f32` and produce an `f32` result.
#[test]
fn dispatches_at_input_width() {
    let narrow = tensor_array(&[2], &[3.0f32, 4.0]);
    let norms = execute(&L2Norm::default(), &(narrow, ()), 1).unwrap();
    assert_eq!(*norms.dtype(), DType::Primitive(PType::F32, Nullability::NonNullable));
    assert_eq!(rows(&norms), vec![Some(5.0f32)]);

    let wide = tensor_array(&[2], &[3.0f64, 4.0]);
    let norms = execute(&L2Norm::default(), &(wide, ()), 1).unwrap();
    assert_eq!(*norms.dtype(), DType::Primitive(PType::F64, Nullability::NonNullable));
}

/// Norms that are stored are read back rather than recomputed. The directions here are deliberately
/// not unit-norm, so reading and recomputing disagree: row 0 decodes to `[6, 8]` (norm `10`), row
/// 1 to `[6, 0]` (norm `6`), while the stored norms are `5` and `2`.
#[test]
fn normalized_readthrough_returns_stored_norms() {
    let denorm = normalized_array(&[2], &[1.2, 1.6, 3.0, 0.0], &[5.0, 2.0]);
    let norms = L2Norm::default().execute_operand(&TensorOperand::Normalized(&denorm));
    assert_close(&rows(&norms.unwrap()), &[Some(5.0), Some(2.0)]);
}

/// The readthrough must survive a partially-null column.
#[test]
fn normalized_readthrough_survives_null_rows() {
    let normalized = tensor_array(&[2], &[1.2, 1.6, 3.0, 0.0]);
    let norms = nullable_doubles(&[Some(5.0), None]);
    let denorm = NormalizedArray::try_new(normalized, norms).unwrap();

    let norms = L2Norm::default().execute_operand(&TensorOperand::Normalized(&denorm));

    assert_close(&rows(&norms.unwrap()), &[Some(5.0), None]);
}

/// The readthrough must still propagate nulls carried by the norms.
#[test]
fn normalized_readthrough_propagates_null_norms() {
    let normalized = tensor_array(&[2], &[0.6, 0.8, 1.0, 0.0]);
    let norms = nullable_doubles(&[Some(5.0), None]);
    let denorm = NormalizedArray::try_new(normalized, norms).unwrap();

    let norms = L2Norm::default().execute_operand(&TensorOperand::Normalized(&denorm));

    assert_close(&rows(&norms.unwrap()), &[Some(5.0), None]);
}

/// The marginal cost of a new tensor function is this entire definition. Everything else (null
/// propagation, constants, validity and type checks) is derived.
struct L1Norm<T>(std::marker::PhantomData<T>);

impl<T: Width> RowFn for L1Norm<T> {
    type Args = (TensorRow<Real<T>>, ());
    type Sink = ElementSink<Real<T>>;
    type State = ();
    type Outcome = ();

    const FALLIBLE: bool = false;

    fn id(&self) -> String {
        String::from("vortex.test.l1_norm")
    }

    fn arg_name(&self, index: usize) -> String {
        String::from(["input"][index])
    }

    fn prepare<'a>(&self, _: (Option<&'a Vec<Real<T>>>, ())) {}

    fn apply<'a>(&self, _: &(), (row, ()): (&'a Vec<Real<T>>, ()), output: &mut Real<T>) {
        *output = Real(row.iter().fold(T::zero(), |acc, x| acc + x.0.abs()));
    }

    fn reduce_encoded(
        &self,
        _: &(Array<Vec<Real<T>>>, ()),
    ) -> Result<Option<Array<Real<T>>>, Error> {
        Ok(None)
    }
}

#[test]
fn derived_fn_executes_with_nulls() {
    let arr = tensor_array(&[2], &[3.0, -4.0, 1.0, 1.0]);
    let arr = arr.mask(&Mask::from_bits(vec![true, false]));

    let norms = execute(&L1Norm::<f64>(std::marker::PhantomData), &(arr, ()), 2).unwrap();

    assert_close(&rows(&norms), &[Some(7.0), None]);
}

/// A kernel written once serves every float width.
#[test]
fn derived_fn_dispatches_at_input_width() {
    let narrow = tensor_array(&[2], &[3.0f32, -4.0]);
    let norms = execute(&L1Norm::<f32>(std::marker::PhantomData), &(narrow, ()), 1).unwrap();
    assert_eq!(*norms.dtype(), DType::Primitive(PType::F32, Nullability::NonNullable));
    assert_eq!(rows(&norms), vec![Some(7.0f32)]);

    let wide = tensor_array(&[2], &[3.0f64, -4.0]);
    let norms = execute(&L1Norm::<f64>(std::marker::PhantomData), &(wide, ()), 1).unwrap();
    assert_eq!(*norms.dtype(), DType::Primitive(PType::F64, Nullability::NonNullable));
}

/// Runs the tensor element through the shared element conformance check, with `NaN` and infinities
/// sitting behind the null row so a wrong `DENSE_SAFE` would be read rather than skipped.
#[test]
fn tensor_row_element_conforms() {
    let arr = tensor_array(&[2], &[3.0, -4.0, f64::NAN, f64::INFINITY]);
    let arr = arr.mask(&Mask::from_bits(vec![true, false]));

    assert!(assert_element_conforms::<TensorRow<Real<f64>>>(
        arr,
        &DType::Primitive(PType::F64, Nullability::NonNullable),
    )
    .is_ok());
}

/// The narrowest width is served like the others.
#[test]
fn half_floats_have_an_inner_product() {
    let elements: Vec<f16> = [3.0, 4.0].iter().map(|&x| f16::from_f64(x)).collect();
    let lhs = tensor_array(&[2], &elements);
    let rhs = tensor_array(&[2], &elements);
    let dot = InnerProduct::default()
        .execute_operands(&TensorOperand::Plain(&lhs), &TensorOperand::Plain(&rhs))
        .unwrap();
    assert_eq!(*dot.dtype(), DType::Primitive(PType::F16, Nullability::NonNullable));
    assert_eq!(rows(&dot), vec![Some(f16::from_f64(25.0))]);
}
