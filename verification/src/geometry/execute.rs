//! Operand dispatch for native geometry kernels.

use vstd::prelude::*;

use crate::array::{nulls, Array, ArrayModel};
use crate::dtype::{DType, Nullability};
use crate::error::Error;
use crate::mask::{all_set, both, none_set, Mask};

verus! {

/// What a kernel reads of one argument: a value for every row, or a value for each.
pub enum Operand<'a, V> {
    Constant(&'a V),
    Column(&'a Array<V>),
}

/// What a kernel is run over.
pub struct Execution<'a, V, const N: usize> {
    pub operands: [Operand<'a, V>; N],
    /// The rows that are null in no operand.
    pub valid: Mask,
    pub len: usize,
    /// Whether the output may hold nulls.
    pub nullability: Nullability,
}

/// Whether an array repeats one value that is never null.
pub open spec fn holds_one_value<V>(array: ArrayModel<V>) -> bool {
    (array.constant matches Some(Some(_))) && all_set(array.valid)
}

/// Whether `operand` is how a kernel sees an array.
pub open spec fn operand_of<V>(array: ArrayModel<V>, operand: Operand<V>) -> bool {
    match operand {
        Operand::Constant(value) => holds_one_value(array) && array.constant == Some(Some(*value)),
        Operand::Column(column) => !holds_one_value(array) && column@ == array,
    }
}

/// Whether every row of an operation is null before it is run.
pub open spec fn all_null<V>(array: ArrayModel<V>) -> bool {
    array.null_constant() || array.len() != 0 && none_set(array.valid)
}

/// Whether `execution` is what a unary kernel is run over.
pub open spec fn unary_execution<V>(
    array: ArrayModel<V>,
    nullability: Nullability,
    execution: Execution<V, 1>,
) -> bool {
    &&& operand_of(array, execution.operands@[0])
    &&& execution.valid@ == array.valid
    &&& execution.len == array.len()
    &&& execution.nullability == nullability
}

/// How a kernel sees an array.
fn operand<V>(array: &Array<V>) -> (operand: Operand<V>)
    ensures
        operand_of(array@, operand),
{
    match array.scalar() {
        Some(value) => {
            if array.validity().all_true() {
                Operand::Constant(value)
            } else {
                Operand::Column(array)
            }
        },
        None => Operand::Column(array),
    }
}

/// Dispatch a unary strict geometry kernel over a constant or column.
///
/// A null constant or all-null column short-circuits to an all-null constant output. Otherwise,
/// `kernel` receives the operand shape and its valid-row mask. The kernel remains responsible for
/// interpreting the native input and constructing its output.
pub fn dispatch_unary<V, W>(
    array: &Array<V>,
    output_dtype: &DType,
    kernel: impl FnOnce(Execution<'_, V, 1>) -> Result<Array<W>, Error>,
) -> (result: Result<Array<W>, Error>)
    requires
        forall|execution: Execution<V, 1>|
            unary_execution(array@, output_dtype@.nullability(), execution)
                ==> #[trigger] call_requires(kernel, (execution,)),
    ensures
        if all_null(array@) {
            result matches Ok(output) && output@ == nulls::<W>(output_dtype@, array@.len())
        } else {
            exists|execution: Execution<V, 1>|
                unary_execution(array@, output_dtype@.nullability(), execution)
                    && #[trigger] call_ensures(kernel, (execution,), result)
        },
{
    let len = array.len();
    if array.is_null_constant() {
        return Ok(Array::null_constant(output_dtype, len));
    }
    let nullability = output_dtype.nullability();
    let operand = operand(array);
    let valid = array.validity().duplicate();
    if len != 0 && valid.all_false() {
        return Ok(Array::null_constant(output_dtype, len));
    }
    let execution = Execution { operands: [operand], valid, len, nullability };
    kernel(execution)
}

/// Whether every row of a binary operation is null before it is run.
pub open spec fn either_null<V>(left: ArrayModel<V>, right: ArrayModel<V>) -> bool {
    ||| left.null_constant()
    ||| right.null_constant()
    ||| left.len() != 0 && none_set(both(left.valid, right.valid))
}

/// Whether `execution` is what a binary kernel is run over.
pub open spec fn binary_execution<V>(
    left: ArrayModel<V>,
    right: ArrayModel<V>,
    nullability: Nullability,
    execution: Execution<V, 2>,
) -> bool {
    &&& operand_of(left, execution.operands@[0])
    &&& operand_of(right, execution.operands@[1])
    &&& execution.valid@ == both(left.valid, right.valid)
    &&& execution.len == left.len()
    &&& execution.nullability == nullability
}

/// Dispatch a binary strict geometry kernel over constants and columns of the same length.
///
/// A null constant, or operands that are never both valid, short-circuit to an all-null constant
/// output. Otherwise, `kernel` receives the operand shapes and the mask of the rows that are valid
/// in both.
pub fn dispatch_binary<V, W>(
    left: &Array<V>,
    right: &Array<V>,
    output_dtype: &DType,
    kernel: impl FnOnce(Execution<'_, V, 2>) -> Result<Array<W>, Error>,
) -> (result: Result<Array<W>, Error>)
    requires
        left@.len() == right@.len(),
        forall|execution: Execution<V, 2>|
            binary_execution(left@, right@, output_dtype@.nullability(), execution)
                ==> #[trigger] call_requires(kernel, (execution,)),
    ensures
        if either_null(left@, right@) {
            result matches Ok(output) && output@ == nulls::<W>(output_dtype@, left@.len())
        } else {
            exists|execution: Execution<V, 2>|
                binary_execution(left@, right@, output_dtype@.nullability(), execution)
                    && #[trigger] call_ensures(kernel, (execution,), result)
        },
{
    let len = left.len();
    if left.is_null_constant() || right.is_null_constant() {
        return Ok(Array::null_constant(output_dtype, len));
    }
    let nullability = output_dtype.nullability();
    let valid = left.validity().and(right.validity());
    if len != 0 && valid.all_false() {
        return Ok(Array::null_constant(output_dtype, len));
    }
    let execution = Execution {
        operands: [operand(left), operand(right)],
        valid,
        len,
        nullability,
    };
    kernel(execution)
}

/// What a unary kernel is run over: the rows of the array that are not null, as many rows as it
/// has, and its one value where it holds one in every row, or else the array itself.
pub proof fn unary_kernels_see_the_array<V>(
    array: ArrayModel<V>,
    nullability: Nullability,
    execution: Execution<V, 1>,
)
    requires
        unary_execution(array, nullability, execution),
    ensures
        execution.valid@ == array.valid,
        execution.len == array.valid.len(),
        execution.nullability == nullability,
        match execution.operands@[0] {
            Operand::Constant(value) => array.constant == Some(Some(*value)) && forall|i: int|
                0 <= i < array.valid.len() ==> array.valid[i],
            Operand::Column(column) => column@ == array && !(array.constant is Some
                && array.constant->0 is Some && forall|i: int|
                0 <= i < array.valid.len() ==> array.valid[i]),
        },
{
}

/// What a binary kernel is run over: the rows that are null in neither array, as many rows as they
/// have, and each of the two in its place, its one value where it holds one in every row, or else
/// the array itself.
pub proof fn binary_kernels_see_both_arrays<V>(
    left: ArrayModel<V>,
    right: ArrayModel<V>,
    nullability: Nullability,
    execution: Execution<V, 2>,
)
    requires
        left.len() == right.len(),
        binary_execution(left, right, nullability, execution),
    ensures
        execution.valid@.len() == left.valid.len(),
        forall|i: int|
            0 <= i < left.valid.len() ==> #[trigger] execution.valid@[i] == (left.valid[i]
                && right.valid[i]),
        execution.len == left.valid.len(),
        execution.nullability == nullability,
        match execution.operands@[0] {
            Operand::Constant(value) => left.constant == Some(Some(*value)) && forall|i: int|
                0 <= i < left.valid.len() ==> left.valid[i],
            Operand::Column(column) => column@ == left && !(left.constant is Some
                && left.constant->0 is Some && forall|i: int|
                0 <= i < left.valid.len() ==> left.valid[i]),
        },
        match execution.operands@[1] {
            Operand::Constant(value) => right.constant == Some(Some(*value)) && forall|i: int|
                0 <= i < right.valid.len() ==> right.valid[i],
            Operand::Column(column) => column@ == right && !(right.constant is Some
                && right.constant->0 is Some && forall|i: int|
                0 <= i < right.valid.len() ==> right.valid[i]),
        },
{
}

/// No kernel is run where it could only give nulls: over a null constant, or over rows of which
/// each is null in an operand. Over no rows it is run, unless an operand is a null constant.
pub proof fn kernels_run_where_a_row_is_valid<V>(left: ArrayModel<V>, right: ArrayModel<V>)
    requires
        left.len() == right.len(),
    ensures
        all_null(left) <==> left.constant == Some(None::<V>) || left.valid.len() > 0 && forall|
            i: int,
        |
            0 <= i < left.valid.len() ==> !#[trigger] left.valid[i],
        either_null(left, right) <==> left.constant == Some(None::<V>) || right.constant == Some(
            None::<V>,
        ) || left.valid.len() > 0 && forall|i: int|
            0 <= i < left.valid.len() ==> !(#[trigger] left.valid[i] && right.valid[i]),
{
    let shared = both(left.valid, right.valid);
    if none_set(shared) {
        assert forall|i: int| 0 <= i < left.valid.len() implies !(#[trigger] left.valid[i]
            && right.valid[i]) by {
            assert(!shared[i]);
        }
    }
    if none_set(left.valid) {
        assert forall|i: int| 0 <= i < left.valid.len() implies !#[trigger] left.valid[i] by {}
    }
}

/// What a dispatched kernel comes to: nulls of the output's type, as many as the array has rows,
/// where it is not run, and otherwise just what the kernel returns.
pub proof fn dispatched_kernels_decide<V, W, K: FnOnce(Execution<'_, V, 1>) -> Result<
    Array<W>,
    Error,
>>(array: &Array<V>, output_dtype: &DType, kernel: K, result: Result<Array<W>, Error>)
    requires
        call_ensures(dispatch_unary::<V, W>, (array, output_dtype, kernel), result),
    ensures
        if array@.constant == Some(None::<V>) || array@.valid.len() > 0 && forall|i: int|
            0 <= i < array@.valid.len() ==> !#[trigger] array@.valid[i] {
            match result {
                Ok(output) => {
                    &&& output@.len() == array@.len()
                    &&& output@.dtype == output_dtype@.with_nullability(Nullability::Nullable)
                    &&& forall|i: int|
                        0 <= i < array@.len() ==> #[trigger] output@.row(i) is None
                },
                Err(_) => false,
            }
        } else {
            exists|execution: Execution<V, 1>|
                unary_execution(array@, output_dtype@.nullability(), execution)
                    && #[trigger] call_ensures(kernel, (execution,), result)
        },
{
    kernels_run_where_a_row_is_valid(array@, array@);
}

/// What a dispatched kernel of two operands comes to: nulls of the output's type, as many as there
/// are rows, where it is not run, and otherwise just what the kernel returns.
pub proof fn dispatched_binary_kernels_decide<
    V,
    W,
    K: FnOnce(Execution<'_, V, 2>) -> Result<Array<W>, Error>,
>(
    left: &Array<V>,
    right: &Array<V>,
    output_dtype: &DType,
    kernel: K,
    result: Result<Array<W>, Error>,
)
    requires
        left@.len() == right@.len(),
        call_ensures(dispatch_binary::<V, W>, (left, right, output_dtype, kernel), result),
    ensures
        if left@.constant == Some(None::<V>) || right@.constant == Some(None::<V>)
            || left@.valid.len() > 0 && forall|i: int|
            0 <= i < left@.valid.len() ==> !(#[trigger] left@.valid[i] && right@.valid[i]) {
            match result {
                Ok(output) => {
                    &&& output@.len() == left@.len()
                    &&& output@.dtype == output_dtype@.with_nullability(Nullability::Nullable)
                    &&& forall|i: int|
                        0 <= i < left@.len() ==> #[trigger] output@.row(i) is None
                },
                Err(_) => false,
            }
        } else {
            exists|execution: Execution<V, 2>|
                binary_execution(left@, right@, output_dtype@.nullability(), execution)
                    && #[trigger] call_ensures(kernel, (execution,), result)
        },
{
    kernels_run_where_a_row_is_valid(left@, right@);
}

} // verus!
