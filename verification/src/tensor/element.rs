//! How a row of a tensor column is read.

use std::marker::PhantomData;

use vstd::prelude::*;

use crate::array::{Array, ArrayModel};
use crate::dtype::{models, DType, DTypeModel, ExtDType, ExtModel, Nullability, PType};
use crate::error::{Error, ErrorModel};
use crate::row::element::{InputElement, Native};

verus! {

/// A fixed-width type whose values can be added and multiplied.
///
/// Nothing is presumed of the operations: what is computed with them is stated in terms of what
/// they return.
pub trait Arithmetic: Native {
    /// What a sum starts from.
    fn nothing() -> Self;

    fn plus(self, other: Self) -> Self;

    fn times(self, other: Self) -> Self;

    /// The square root.
    fn root(self) -> Self;
}

/// The element type of a tensor type.
pub open spec fn tensor_element(dtype: DTypeModel) -> Option<PType> {
    match dtype {
        DTypeModel::Extension(ExtModel::Vector { element, .. }) => Some(element),
        DTypeModel::Extension(ExtModel::FixedShapeTensor { element, .. }) => Some(element),
        _ => None,
    }
}

/// The element type of a tensor type.
pub fn element_ptype(dtype: &DType) -> (element: Option<PType>)
    ensures
        element == tensor_element(dtype@),
{
    match dtype {
        DType::Extension(ExtDType::Vector { element, .. }) => Some(*element),
        DType::Extension(ExtDType::FixedShapeTensor { element, .. }) => Some(*element),
        _ => None,
    }
}

/// Whether two types are the same but for their nullability.
pub open spec fn same_kind(left: DTypeModel, right: DTypeModel) -> bool {
    left.with_nullability(Nullability::NonNullable) == right.with_nullability(
        Nullability::NonNullable,
    )
}

/// Why a tensor function does not take columns of these types, from argument `at` on.
pub open spec fn tensor_rejection_from(dtypes: Seq<DTypeModel>, at: int) -> Option<ErrorModel>
    decreases dtypes.len() - at,
{
    if at >= dtypes.len() {
        None
    } else if tensor_element(dtypes[at]) is None {
        Some(ErrorModel::NotATensor { dtype: dtypes[at] })
    } else if !same_kind(dtypes[at], dtypes[0]) {
        Some(ErrorModel::DifferentTensors { first: dtypes[0], other: dtypes[at] })
    } else {
        tensor_rejection_from(dtypes, at + 1)
    }
}

/// Why a tensor function does not take columns of these types: there must be one, all must be of
/// one tensor type, and its elements must be floats.
pub open spec fn tensor_rejection(dtypes: Seq<DTypeModel>) -> Option<ErrorModel> {
    if dtypes.len() == 0 {
        Some(ErrorModel::NoTensor)
    } else if tensor_rejection_from(dtypes, 0) is Some {
        tensor_rejection_from(dtypes, 0)
    } else if !tensor_element(dtypes[0])->0.float() {
        Some(ErrorModel::NotAFloat { element: tensor_element(dtypes[0])->0 })
    } else {
        None
    }
}

/// The float width at which a tensor function is run over columns of these types.
pub fn tensor_element_ptype(args: &[DType]) -> (result: Result<PType, Error>)
    ensures
        match result {
            Ok(element) => {
                &&& tensor_rejection(models(args@)) is None
                &&& tensor_element(models(args@)[0]) == Some(element)
            },
            Err(error) => tensor_rejection(models(args@)) == Some(error@),
        },
{
    if args.len() == 0 {
        return Err(Error::NoTensor);
    }
    let ghost dtypes = models(args@);
    let mut at: usize = 0;
    while at < args.len()
        invariant
            at <= args@.len(),
            args@.len() > 0,
            dtypes == models(args@),
            at > 0 ==> tensor_element(dtypes[0]) is Some,
            tensor_rejection_from(dtypes, at as int) == tensor_rejection_from(dtypes, 0),
        decreases args@.len() - at,
    {
        if element_ptype(&args[at]).is_none() {
            return Err(Error::NotATensor { dtype: args[at].clone() });
        }
        if !args[at].as_nonnullable().same(&args[0].as_nonnullable()) {
            return Err(
                Error::DifferentTensors { first: args[0].clone(), other: args[at].clone() },
            );
        }
        at += 1;
    }
    match element_ptype(&args[0]) {
        Some(element) => {
            if !element.is_float() {
                return Err(Error::NotAFloat { element });
            }
            Ok(element)
        },
        None => Err(Error::NoTensor),
    }
}

/// One row of a tensor column: the flat elements of a tensor or vector.
pub struct TensorRow<T> {
    marker: PhantomData<T>,
}

/// A decoded tensor column.
pub struct TensorColumn<T> {
    rows: Array<Vec<T>>,
    empty: Vec<T>,
}

impl<T> TensorColumn<T> {
    pub closed spec fn array(self) -> ArrayModel<Vec<T>> {
        self.rows@
    }

    /// What is read where nothing is stored.
    pub closed spec fn fallback(self) -> Vec<T> {
        self.empty
    }

    fn row(&self, index: usize) -> (row: &Vec<T>)
        requires
            index < self.array().len(),
        ensures
            *row == (match self.array().payload[index as int] {
                Some(row) => row,
                None => self.fallback(),
            }),
    {
        match self.rows.payload(index) {
            Some(row) => row,
            None => &self.empty,
        }
    }
}

impl<T: Native> InputElement for TensorRow<T> {
    type Value = Vec<T>;

    type Column = TensorColumn<T>;

    type Varying<'a> = &'a TensorColumn<T>;

    type Elem<'a> = &'a Vec<T>;

    const DENSE_SAFE: bool = true;

    const DECODE_FALLIBLE: bool = false;

    const FILTERED_DECODE_COST: usize = 0;

    open spec fn rejection(dtype: DTypeModel) -> Option<ErrorModel> {
        if tensor_element(dtype) is Some && DTypeModel::Primitive(
            tensor_element(dtype)->0,
            Nullability::NonNullable,
        ) == T::stored() {
            None
        } else {
            Some(ErrorModel::UnexpectedDType { dtype })
        }
    }

    open spec fn decode_failure(array: ArrayModel<Vec<T>>) -> Option<ErrorModel> {
        None
    }

    open spec fn null_tolerant(array: ArrayModel<Vec<T>>) -> bool {
        true
    }

    open spec fn decoded_len(array: ArrayModel<Vec<T>>) -> nat {
        array.len()
    }

    open spec fn elem_of<'a>(value: &'a Vec<T>) -> &'a Vec<T> {
        value
    }

    open spec fn column_len(column: &TensorColumn<T>) -> nat {
        column.array().len()
    }

    open spec fn readable(column: &TensorColumn<T>, i: int) -> bool {
        true
    }

    open spec fn elem_at<'a>(column: &'a TensorColumn<T>, i: int) -> &'a Vec<T> {
        match column.array().payload[i] {
            Some(row) => &row,
            None => &column.fallback(),
        }
    }

    open spec fn viewed<'a>(varying: &&'a TensorColumn<T>) -> TensorColumn<T> {
        **varying
    }

    fn validate(dtype: &DType) -> (result: Result<(), Error>) {
        if let Some(element) = element_ptype(dtype) {
            if DType::Primitive(element, Nullability::NonNullable).same(&T::stored_dtype()) {
                return Ok(());
            }
        }
        Err(Error::UnexpectedDType { dtype: dtype.clone() })
    }

    fn decode(array: &Array<Vec<T>>) -> (result: Result<TensorColumn<T>, Error>)
        ensures
            result matches Ok(column) && column.array() == array@,
    {
        Ok(TensorColumn { rows: array.duplicate(), empty: Vec::new() })
    }

    fn decode_null_tolerant(array: &Array<Vec<T>>) -> (result: Result<
        Option<TensorColumn<T>>,
        Error,
    >)
        ensures
            result matches Ok(Some(column)) && column.array() == array@,
    {
        Ok(Some(TensorColumn { rows: array.duplicate(), empty: Vec::new() }))
    }

    fn get<'a>(column: &'a TensorColumn<T>, index: usize) -> (elem: &'a Vec<T>)
        ensures
            *elem == (match column.array().payload[index as int] {
                Some(row) => row,
                None => column.fallback(),
            }),
    {
        column.row(index)
    }

    fn varying<'a>(column: &'a TensorColumn<T>) -> (varying: &'a TensorColumn<T>)
        ensures
            varying == column,
    {
        column
    }

    fn varying_len<'a>(varying: &&'a TensorColumn<T>) -> (len: usize)
        ensures
            len == varying.array().len(),
    {
        varying.rows.len()
    }

    fn get_varying<'a>(varying: &&'a TensorColumn<T>, index: usize) -> (elem: &'a Vec<T>) where
        Self: 'a,

        ensures
            *elem == (match varying.array().payload[index as int] {
                Some(row) => row,
                None => varying.fallback(),
            }),
    {
        varying.row(index)
    }
}

/// What a row of a tensor claims: it may be read where it is null, and decoding it neither fails
/// nor gains from filtering.
pub proof fn tensor_row_claims<T: Native>()
    ensures
        <TensorRow<T> as InputElement>::DENSE_SAFE,
        !<TensorRow<T> as InputElement>::DECODE_FALLIBLE,
        <TensorRow<T> as InputElement>::FILTERED_DECODE_COST == 0,
{
}

/// A tensor function takes columns exactly where there is one, each holds vectors or tensors, all
/// are of one type but for its nullability, and the elements are floats. It is run at the width of
/// the elements.
pub proof fn tensor_functions_take_one_float_type(args: &[DType], result: Result<PType, Error>)
    requires
        call_ensures(tensor_element_ptype, (args,), result),
    ensures
        result is Ok <==> {
            &&& args@.len() > 0
            &&& forall|i: int|
                0 <= i < args@.len() ==> (#[trigger] args@[i])@.with_nullability(
                    Nullability::NonNullable,
                ) == args@[0]@.with_nullability(Nullability::NonNullable)
            &&& match args@[0]@ {
                DTypeModel::Extension(ExtModel::Vector { element, .. }) => element == PType::F16
                    || element == PType::F32 || element == PType::F64,
                DTypeModel::Extension(ExtModel::FixedShapeTensor { element, .. }) => element
                    == PType::F16 || element == PType::F32 || element == PType::F64,
                _ => false,
            }
        },
        result matches Ok(width) ==> match args@[0]@ {
            DTypeModel::Extension(ExtModel::Vector { element, .. }) => element == width,
            DTypeModel::Extension(ExtModel::FixedShapeTensor { element, .. }) => element == width,
            _ => false,
        },
{
    let dtypes = models(args@);
    assert forall|i: int| 0 <= i < args@.len() implies dtypes[i] == (#[trigger] args@[i])@ by {}
    if args@.len() > 0 {
        lemma_one_kind(dtypes, 0);
        if tensor_rejection_from(dtypes, 0) is None {
            assert forall|i: int| 0 <= i < args@.len() implies (
            #[trigger] args@[i])@.with_nullability(Nullability::NonNullable)
                == args@[0]@.with_nullability(Nullability::NonNullable) by {
                assert(same_kind(dtypes[i], dtypes[0]));
            }
        } else if forall|i: int|
            0 <= i < args@.len() ==> (#[trigger] args@[i])@.with_nullability(
                Nullability::NonNullable,
            ) == args@[0]@.with_nullability(Nullability::NonNullable) {
            let i = choose|i: int|
                0 <= i < dtypes.len() && (tensor_element(dtypes[i]) is None || !same_kind(
                    #[trigger] dtypes[i],
                    dtypes[0],
                ));
            assert(args@[i]@.with_nullability(Nullability::NonNullable)
                == args@[0]@.with_nullability(Nullability::NonNullable));
        }
    }
}

/// Every column is looked at for its kind.
proof fn lemma_one_kind(dtypes: Seq<DTypeModel>, at: int)
    requires
        0 <= at <= dtypes.len(),
    ensures
        tensor_rejection_from(dtypes, at) is None <==> forall|i: int|
            at <= i < dtypes.len() ==> tensor_element(dtypes[i]) is Some && same_kind(
                #[trigger] dtypes[i],
                dtypes[0],
            ),
    decreases dtypes.len() - at,
{
    if at < dtypes.len() {
        lemma_one_kind(dtypes, at + 1);
    }
}

/// Only vectors and tensors have an element type, and it is the one that they name.
pub proof fn tensor_types_name_their_elements(dtype: DType, element: Option<PType>)
    requires
        call_ensures(element_ptype, (&dtype,), element),
    ensures
        element == match dtype@ {
            DTypeModel::Extension(ExtModel::Vector { element, .. }) => Some(element),
            DTypeModel::Extension(ExtModel::FixedShapeTensor { element, .. }) => Some(element),
            _ => None,
        },
        tensor_element(dtype@) == element,
{
}

/// A row of a tensor is read from columns of vectors or tensors whose elements are of its own type,
/// and from no other.
pub proof fn tensor_rows_take_their_element_type<T: Native>(
    dtype: DType,
    result: Result<(), Error>,
)
    requires
        call_ensures(<TensorRow<T> as InputElement>::validate, (&dtype,), result),
    ensures
        result is Ok <==> match dtype@ {
            DTypeModel::Extension(ExtModel::Vector { element, .. }) => T::stored()
                == DTypeModel::Primitive(element, Nullability::NonNullable),
            DTypeModel::Extension(ExtModel::FixedShapeTensor { element, .. }) => T::stored()
                == DTypeModel::Primitive(element, Nullability::NonNullable),
            _ => false,
        },
        result matches Err(error) ==> error@ == (ErrorModel::UnexpectedDType { dtype: dtype@ }),
{
}

/// A tensor column is read as what it stores: every row, null or not, is all the elements behind it
/// where there are any, whichever way it is read.
pub proof fn tensor_rows_are_read_as_stored<T: Native>(
    array: Array<Vec<T>>,
    decoded: Result<TensorColumn<T>, Error>,
    tolerant: Result<Option<TensorColumn<T>>, Error>,
    column: TensorColumn<T>,
    varying: &TensorColumn<T>,
    len: usize,
    i: usize,
    elem: &Vec<T>,
    varying_elem: &Vec<T>,
)
    requires
        call_ensures(<TensorRow<T> as InputElement>::decode, (&array,), decoded),
        call_ensures(<TensorRow<T> as InputElement>::decode_null_tolerant, (&array,), tolerant),
        decoded == Ok::<TensorColumn<T>, Error>(column) || tolerant == Ok::<
            Option<TensorColumn<T>>,
            Error,
        >(Some(column)),
        call_ensures(<TensorRow<T> as InputElement>::varying, (&column,), varying),
        call_ensures(<TensorRow<T> as InputElement>::varying_len, (&varying,), len),
        i < array@.len(),
        call_ensures(<TensorRow<T> as InputElement>::get, (&column, i), elem),
        call_ensures(<TensorRow<T> as InputElement>::get_varying, (&varying, i), varying_elem),
    ensures
        decoded is Ok,
        tolerant matches Ok(Some(_)),
        len == array@.len(),
        array@.payload[i as int] matches Some(row) ==> elem@ == row@ && varying_elem@ == row@,
        varying_elem == elem,
{
    tensor_row_claims::<T>();
    assert(<TensorRow<T> as InputElement>::readable(&column, i as int));
}

/// The element of a row of a tensor is the row.
pub proof fn tensor_values_are_their_elements<T: Native>(value: Vec<T>)
    ensures
        *<TensorRow<T> as InputElement>::elem_of(&value) == value,
{
}

/// Why columns are refused by a tensor function: the first of them that holds no tensors, or
/// tensors of another type than the first column does, is named with what is wrong with it, and
/// elements that are no floats are named where all columns agree.
pub proof fn refused_tensor_columns_are_named(
    args: &[DType],
    k: int,
    result: Result<PType, Error>,
)
    requires
        call_ensures(tensor_element_ptype, (args,), result),
    ensures
        args@.len() == 0 ==> result is Err && result->Err_0@ == ErrorModel::NoTensor,
        0 <= k < args@.len() && (forall|i: int|
            0 <= i < k ==> (#[trigger] args@[i])@ is Extension && match args@[i]@->Extension_0 {
                ExtModel::Vector { .. } => true,
                ExtModel::FixedShapeTensor { .. } => true,
                _ => false,
            } && args@[i]@.with_nullability(Nullability::NonNullable)
                == args@[0]@.with_nullability(Nullability::NonNullable)) ==> match args@[k]@ {
            DTypeModel::Extension(ExtModel::Vector { .. })
            | DTypeModel::Extension(ExtModel::FixedShapeTensor { .. }) => {
                args@[k]@.with_nullability(Nullability::NonNullable)
                    != args@[0]@.with_nullability(Nullability::NonNullable) ==> result is Err
                    && result->Err_0@ == (ErrorModel::DifferentTensors {
                    first: args@[0]@,
                    other: args@[k]@,
                })
            },
            _ => result is Err && result->Err_0@ == (ErrorModel::NotATensor { dtype: args@[k]@ }),
        },
        args@.len() > 0 && (forall|i: int|
            0 <= i < args@.len() ==> (#[trigger] args@[i])@.with_nullability(
                Nullability::NonNullable,
            ) == args@[0]@.with_nullability(Nullability::NonNullable)) ==> match args@[0]@ {
            DTypeModel::Extension(ExtModel::Vector { element, .. })
            | DTypeModel::Extension(ExtModel::FixedShapeTensor { element, .. }) => element
                != PType::F16 && element != PType::F32 && element != PType::F64 ==> result is Err
                && result->Err_0@ == (ErrorModel::NotAFloat { element }),
            _ => true,
        },
{
    let dtypes = models(args@);
    assert forall|i: int| 0 <= i < args@.len() implies dtypes[i] == (#[trigger] args@[i])@ by {}
    if 0 <= k < args@.len() && (forall|i: int|
        0 <= i < k ==> (#[trigger] args@[i])@ is Extension && match args@[i]@->Extension_0 {
            ExtModel::Vector { .. } => true,
            ExtModel::FixedShapeTensor { .. } => true,
            _ => false,
        } && args@[i]@.with_nullability(Nullability::NonNullable) == args@[0]@.with_nullability(
            Nullability::NonNullable,
        )) {
        assert forall|i: int| 0 <= i < k implies tensor_element(dtypes[i]) is Some && same_kind(
            #[trigger] dtypes[i],
            dtypes[0],
        ) by {
            assert(args@[i]@ is Extension);
        }
        lemma_passed_over(dtypes, 0, k);
    }
    if args@.len() > 0 && (forall|i: int|
        0 <= i < args@.len() ==> (#[trigger] args@[i])@.with_nullability(Nullability::NonNullable)
            == args@[0]@.with_nullability(Nullability::NonNullable)) {
        lemma_one_kind(dtypes, 0);
        if tensor_element(dtypes[0]) is Some {
            assert forall|i: int| 0 <= i < dtypes.len() implies tensor_element(dtypes[i]) is Some
                && same_kind(#[trigger] dtypes[i], dtypes[0]) by {
                assert(args@[i]@.with_nullability(Nullability::NonNullable)
                    == args@[0]@.with_nullability(Nullability::NonNullable));
            }
        }
    }
}

/// Columns that are in order are passed over.
proof fn lemma_passed_over(dtypes: Seq<DTypeModel>, at: int, k: int)
    requires
        0 <= at <= k <= dtypes.len(),
        forall|i: int|
            at <= i < k ==> tensor_element(dtypes[i]) is Some && same_kind(
                #[trigger] dtypes[i],
                dtypes[0],
            ),
    ensures
        tensor_rejection_from(dtypes, at) == tensor_rejection_from(dtypes, k),
    decreases k - at,
{
    if at < k {
        assert(same_kind(dtypes[at], dtypes[0]));
        lemma_passed_over(dtypes, at + 1, k);
    }
}

} // verus!
