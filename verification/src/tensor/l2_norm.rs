//! Euclidean norm of tensor-like columns.

use std::marker::PhantomData;

use vstd::prelude::*;

use crate::array::{Array, ArrayModel};
use crate::dtype::{models, DTypeModel, ExtModel, Nullability, PType};
use crate::error::{Error, ErrorModel};
use crate::row::execute::row_sink_rejection;
use crate::row::laws::{infallible_functions_succeed, lifting_is_strict};
use crate::row::lift::{execute, executed, validity};
use crate::row::result::outcome_claims;
use crate::row::row_fn::{coherent, policy, EmptyOptions, RowFn, RowPolicy};
use crate::row::sink::ElementSink;
use crate::row::tuple::{argument_claims, no_argument_claims, ElementTuple};
use crate::tensor::element::{
    tensor_element_ptype, tensor_rejection, tensor_rejection_from, tensor_row_claims, Arithmetic,
    TensorRow,
};
use crate::tensor::inner_product::{
    inner_product_row, is_inner_product, stated_inner_products_add_up_every_pair,
};
use crate::tensor::normalized::TensorOperand;

verus! {

/// Whether `result` may be the norm of a row: the root of its inner product with itself.
pub open spec fn is_norm<T: Arithmetic>(row: Seq<T>, result: T) -> bool {
    exists|square: T| #[trigger]
        is_inner_product(row, row, square) && call_ensures(T::root, (square,), result)
}

/// Compute the Euclidean norm of a row.
pub fn l2_norm_row<T: Arithmetic>(row: &[T]) -> (result: T)
    ensures
        is_norm(row@, result),
{
    let square = inner_product_row(row, row);
    square.root()
}

/// Euclidean norm of every row of a tensor-like column with a float element type, whose width is
/// `T`.
#[derive(Debug)]
pub struct L2Norm<T> {
    marker: PhantomData<T>,
}

impl<T> Default for L2Norm<T> {
    fn default() -> Self {
        L2Norm { marker: PhantomData }
    }
}

impl<T: Arithmetic> RowFn for L2Norm<T> {
    type Args = (TensorRow<T>, ());

    type Sink = ElementSink<T>;

    type State = ();

    type Outcome = ();

    const FALLIBLE: bool = false;

    open spec fn computes<'a>(
        &'a self,
        state: (),
        elems: (&'a Vec<T>, ()),
        before: T,
        after: T,
        outcome: (),
    ) -> bool {
        is_norm(elems.0@, after)
    }

    open spec fn reduces(
        &self,
        batch: (ArrayModel<Vec<T>>, ()),
        reduced: Result<Option<Array<T>>, Error>,
    ) -> bool {
        reduced matches Ok(None)
    }

    open spec fn argument(index: int) -> Seq<char> {
        "input"@
    }

    fn id(&self) -> (id: String)
        ensures
            id@ == "vortex.tensor.l2_norm"@,
    {
        "vortex.tensor.l2_norm".to_owned()
    }

    fn arg_name(&self, index: usize) -> (name: String) {
        "input".to_owned()
    }

    fn prepare<'a>(&self, consts: (Option<&'a Vec<T>>, ())) -> (state: ()) {
    }

    fn apply<'a>(&self, state: &(), elems: (&'a Vec<T>, ()), slot: &mut T) -> (outcome: ()) {
        *slot = l2_norm_row(elems.0.as_slice());
    }

    fn reduce_encoded(&self, args: &(Array<Vec<T>>, ())) -> (reduced: Result<
        Option<Array<T>>,
        Error,
    >) {
        Ok(None)
    }

    fn serialize(&self) -> (result: Result<Option<Vec<u8>>, Error>)
        ensures
            result matches Ok(Some(bytes)) && bytes@.len() == 0,
    {
        Ok(Some(Vec::new()))
    }

    fn deserialize(&self, metadata: &[u8]) -> (result: Result<EmptyOptions, Error>)
        ensures
            result == Ok::<EmptyOptions, Error>(EmptyOptions),
    {
        Ok(EmptyOptions)
    }
}

impl<T: Arithmetic> L2Norm<T> {
    /// The norm of every row of an operand. Norms that are stored are read back rather than
    /// recomputed.
    pub fn execute_operand(&self, operand: &TensorOperand<'_, T>) -> (result: Result<
        Array<T>,
        Error,
    >)
        ensures
            match *operand {
                TensorOperand::Plain(array) => if tensor_rejection(seq![array@.dtype]) is Some {
                    result matches Err(error) && tensor_rejection(seq![array@.dtype]) == Some(
                        error@,
                    )
                } else {
                    &&& executed::<L2Norm<T>>(self, &(array@, ()), array@.len(), result)
                    &&& result is Ok <==> row_sink_rejection::<
                        (TensorRow<T>, ()),
                        ElementSink<T>,
                    >(seq![array@.dtype]) is None
                },
                TensorOperand::Normalized(array) => result matches Ok(norms) && norms@
                    == array.scales(),
            },
    {
        match operand {
            TensorOperand::Plain(array) => {
                let dtypes = [array.dtype().clone()];
                assert(models(dtypes@) =~= seq![array@.dtype]);
                match tensor_element_ptype(dtypes.as_slice()) {
                    Ok(_) => {},
                    Err(error) => return Err(error),
                }
                let args = (array.duplicate(), ());
                proof {
                    l2_norm_claims::<T>();
                }
                let result = execute(self, &args, array.len());
                proof {
                    use_type_invariant(*array);
                    Array::lemma_wf(**array);
                    lemma_norm_succeeds(self, array@, result);
                }
                result
            },
            TensorOperand::Normalized(array) => Ok(array.children().1.duplicate()),
        }
    }
}

/// A column that a norm is taken of has one.
proof fn lemma_norm_succeeds<T: Arithmetic>(
    f: &L2Norm<T>,
    array: ArrayModel<Vec<T>>,
    result: Result<Array<T>, Error>,
)
    requires
        array.wf(),
        executed::<L2Norm<T>>(f, &(array, ()), array.len(), result),
    ensures
        result is Ok <==> row_sink_rejection::<(TensorRow<T>, ()), ElementSink<T>>(
            seq![array.dtype],
        ) is None,
{
    let batch = (array, ());
    let dtypes = <L2Norm<T> as RowFn>::Args::dtypes(batch);
    assert(dtypes =~= seq![array.dtype]);
    if row_sink_rejection::<(TensorRow<T>, ()), ElementSink<T>>(dtypes) is None {
        let valid = validity::<(TensorRow<T>, ())>(batch, array.len());
        <(TensorRow<T>, ()) as ElementTuple>::lemma_filter(batch, valid);
        l2_norm_claims::<T>();
        infallible_functions_succeed::<L2Norm<T>>(f, &batch, array.len(), T::stored(), result);
    }
}

/// The norm cannot fail on a legal operand, and runs every row of a batch with nulls.
pub proof fn l2_norm_claims<T: Arithmetic>()
    ensures
        !<L2Norm<T> as RowFn>::FALLIBLE,
        coherent::<L2Norm<T>>(),
        policy::<L2Norm<T>>() == RowPolicy::Dense,
{
    outcome_claims();
    tensor_row_claims::<T>();
    no_argument_claims();
    argument_claims::<TensorRow<T>, ()>();
}

/// The norm of a row is the root of the sum of the squares of all its elements, added up in order
/// from nothing.
pub proof fn norms_are_roots_of_all_squares<T: Arithmetic>(row: &[T], result: T) -> (terms: (
    Seq<T>,
    Seq<T>,
))
    requires
        call_ensures(l2_norm_row::<T>, (row,), result),
    ensures
        terms.0.len() == row@.len(),
        terms.1.len() == row@.len() + 1,
        call_ensures(T::nothing, (), terms.1[0]),
        forall|k: int|
            0 <= k < row@.len() ==> {
                &&& call_ensures(T::times, (row@[k], row@[k]), #[trigger] terms.0[k])
                &&& call_ensures(T::plus, (terms.1[k], terms.0[k]), terms.1[k + 1])
            },
        call_ensures(T::root, (terms.1[row@.len() as int],), result),
{
    let square = choose|square: T| #[trigger]
        is_inner_product(row@, row@, square) && call_ensures(T::root, (square,), result);
    stated_inner_products_add_up_every_pair(row@, row@, square)
}

/// The norm of a column, row by row: null exactly where the column is, and otherwise the root of
/// the sum of the squares of all the elements of the row. Norms that are stored are the norms, just
/// as they are.
pub proof fn norms_are_taken_row_by_row<T: Arithmetic>(
    f: L2Norm<T>,
    operand: TensorOperand<T>,
    norms: Array<T>,
    i: int,
) -> (terms: (Seq<T>, Seq<T>))
    requires
        operand.wf(),
        call_ensures(
            L2Norm::<T>::execute_operand,
            (&f, &operand),
            Ok::<Array<T>, Error>(norms),
        ),
    ensures
        match operand {
            TensorOperand::Plain(array) => {
                &&& norms@.len() == array@.len()
                &&& norms@.dtype == T::stored().with_nullability(array@.dtype.nullability())
                &&& 0 <= i < norms@.len() ==> norms@.valid[i] == array@.valid[i]
                &&& 0 <= i < norms@.len() && norms@.valid[i] ==> {
                    let row = (array@.payload[i]->0)@;
                    &&& terms.0.len() == row.len()
                    &&& terms.1.len() == row.len() + 1
                    &&& call_ensures(T::nothing, (), terms.1[0])
                    &&& forall|k: int|
                        0 <= k < row.len() ==> {
                            &&& call_ensures(T::times, (row[k], row[k]), #[trigger] terms.0[k])
                            &&& call_ensures(T::plus, (terms.1[k], terms.0[k]), terms.1[k + 1])
                        }
                    &&& norms@.payload[i] is Some
                    &&& call_ensures(
                        T::root,
                        (terms.1[row.len() as int],),
                        norms@.payload[i]->0,
                    )
                }
            },
            TensorOperand::Normalized(array) => norms@ == array.scales(),
        },
{
    match operand {
        TensorOperand::Plain(array) => {
            let batch = (array@, ());
            lifting_is_strict::<L2Norm<T>>(&f, &batch, array@.len(), T::stored(), norms);
            let dtypes = <L2Norm<T> as RowFn>::Args::dtypes(batch);
            assert(dtypes =~= seq![array@.dtype]);
            assert(dtypes[0] == array@.dtype);
            if 0 <= i < norms@.len() && norms@.valid[i] {
                assert(norms@.payload[i] is Some);
                assert(<L2Norm<T> as RowFn>::Args::valid_at(batch, i));
                let row = (array@.payload[i]->0)@;
                let square = choose|square: T| #[trigger]
                    is_inner_product(row, row, square) && call_ensures(
                        T::root,
                        (square,),
                        norms@.payload[i]->0,
                    );
                stated_inner_products_add_up_every_pair(row, row, square)
            } else {
                (Seq::empty(), Seq::empty())
            }
        },
        TensorOperand::Normalized(_) => (Seq::empty(), Seq::empty()),
    }
}

/// What the norm says of itself: its name, and that of its argument.
pub proof fn the_norm_names_itself_and_its_argument<T: Arithmetic>(
    f: L2Norm<T>,
    id: String,
    name: String,
)
    requires
        call_ensures(<L2Norm<T> as RowFn>::id, (&f,), id),
        call_ensures(<L2Norm<T> as RowFn>::arg_name, (&f, 0usize), name),
    ensures
        id@ == "vortex.tensor.l2_norm"@,
        name@ == "input"@,
{
}

/// A plain column has a norm exactly where it holds vectors or tensors whose elements are floats of
/// the width that is computed with. Stored norms are always read back.
pub proof fn norms_are_taken_of_floats<T: Arithmetic>(
    f: L2Norm<T>,
    operand: TensorOperand<T>,
    result: Result<Array<T>, Error>,
)
    requires
        T::stored().nullability() == Nullability::NonNullable,
        call_ensures(L2Norm::<T>::execute_operand, (&f, &operand), result),
    ensures
        result is Ok <==> match operand {
            TensorOperand::Plain(array) => match array@.dtype {
                DTypeModel::Extension(ExtModel::Vector { element, .. }) => {
                    &&& element == PType::F16 || element == PType::F32 || element == PType::F64
                    &&& T::stored() == DTypeModel::Primitive(element, Nullability::NonNullable)
                },
                DTypeModel::Extension(ExtModel::FixedShapeTensor { element, .. }) => {
                    &&& element == PType::F16 || element == PType::F32 || element == PType::F64
                    &&& T::stored() == DTypeModel::Primitive(element, Nullability::NonNullable)
                },
                _ => false,
            },
            TensorOperand::Normalized(_) => true,
        },
{
    reveal_with_fuel(tensor_rejection_from, 3);
}

/// A norm has a wire representation, which is empty, and any bytes read back as it.
pub proof fn norms_are_written_as_no_bytes<T: Arithmetic>(
    f: L2Norm<T>,
    metadata: &[u8],
    written: Result<Option<Vec<u8>>, Error>,
    read: Result<EmptyOptions, Error>,
)
    requires
        call_ensures(<L2Norm<T> as RowFn>::serialize, (&f,), written),
        call_ensures(<L2Norm<T> as RowFn>::deserialize, (&f, metadata), read),
    ensures
        written matches Ok(Some(bytes)) && bytes@ == Seq::<u8>::empty(),
        read is Ok,
{
}

/// Why a column has no norm, where it has none: it holds no tensors, the elements are no floats, or
/// they are not of the width that is computed with.
pub proof fn columns_without_a_norm_are_named<T: Arithmetic>(
    f: L2Norm<T>,
    array: &Array<Vec<T>>,
    error: Error,
)
    requires
        T::stored().nullability() == Nullability::NonNullable,
        call_ensures(
            L2Norm::<T>::execute_operand,
            (&f, &TensorOperand::Plain(array)),
            Err::<Array<T>, Error>(error),
        ),
    ensures
        match array@.dtype {
            DTypeModel::Extension(ExtModel::Vector { element, .. })
            | DTypeModel::Extension(ExtModel::FixedShapeTensor { element, .. }) => {
                if element != PType::F16 && element != PType::F32 && element != PType::F64 {
                    error@ == (ErrorModel::NotAFloat { element })
                } else {
                    error@ == (ErrorModel::UnexpectedDType { dtype: array@.dtype })
                }
            },
            _ => error@ == (ErrorModel::NotATensor { dtype: array@.dtype }),
        },
{
    reveal_with_fuel(tensor_rejection_from, 3);
}

} // verus!
