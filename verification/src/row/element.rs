//! How one argument of a row function is typed: what is decoded once per batch and read per row.

use vstd::prelude::*;

use crate::array::{Array, ArrayModel};
use crate::dtype::{DType, DTypeModel, Nullability, PType};
use crate::error::{Error, ErrorModel};
use crate::row::sink::OutputElement;

verus! {

/// A column decoded once per batch and read one row at a time.
///
/// Implementations decide how a row is typed: a whole value out of a flat buffer, a borrowed slice
/// of a data buffer, a length that is read without resolving what it measures. What an
/// implementation leaves unstated of its columns is arbitrary.
pub trait InputElement: Sized {
    /// The values of the columns that this element is read from.
    type Value;

    /// What a column is decoded into, once per batch.
    type Column;

    /// The decoded rows, as the row loop reads them when no argument is constant.
    type Varying<'a>;

    /// One row.
    type Elem<'a>;

    /// Whether a row may be read where it is null.
    ///
    /// Reading a whole value out of a flat buffer is safe. Following a stored offset into a data
    /// buffer is not, because nothing is promised of the payload behind a null.
    const DENSE_SAFE: bool;

    /// Whether decoding can fail on otherwise legal input.
    const DECODE_FALLIBLE: bool;

    /// How much work a filtered column saves when it is decoded.
    const FILTERED_DECODE_COST: usize;

    /// Why this element cannot be read from columns of this type.
    open spec fn rejection(dtype: DTypeModel) -> Option<ErrorModel> {
        arbitrary()
    }

    /// Why a column cannot be decoded.
    open spec fn decode_failure(array: ArrayModel<Self::Value>) -> Option<ErrorModel> {
        arbitrary()
    }

    /// Whether a column with nulls can be decoded without reading behind them.
    open spec fn null_tolerant(array: ArrayModel<Self::Value>) -> bool {
        arbitrary()
    }

    /// The number of rows that a column decodes into.
    open spec fn decoded_len(array: ArrayModel<Self::Value>) -> nat {
        arbitrary()
    }

    /// The element that a row of this value is read as.
    open spec fn elem_of<'a>(value: &'a Self::Value) -> Self::Elem<'a> {
        arbitrary()
    }

    /// The number of rows of a decoded column.
    open spec fn column_len(column: &Self::Column) -> nat {
        arbitrary()
    }

    /// Whether a decoded row may be read.
    open spec fn readable(column: &Self::Column, i: int) -> bool {
        arbitrary()
    }

    /// What a decoded row is read as.
    open spec fn elem_at<'a>(column: &'a Self::Column, i: int) -> Self::Elem<'a> {
        arbitrary()
    }

    /// The column that a varying view reads.
    open spec fn viewed<'a>(varying: &Self::Varying<'a>) -> Self::Column {
        arbitrary()
    }

    /// Accept or reject columns of type `dtype`.
    fn validate(dtype: &DType) -> (result: Result<(), Error>)
        ensures
            match result {
                Ok(_) => Self::rejection(dtype@) is None,
                Err(error) => Self::rejection(dtype@) == Some(error@),
            },
    ;

    /// Decode a column, once per batch.
    fn decode(array: &Array<Self::Value>) -> (result: Result<Self::Column, Error>)
        requires
            Self::rejection(array@.dtype) is None,
        ensures
            match result {
                Ok(column) => {
                    &&& Self::decode_failure(array@) is None
                    &&& Self::column_len(&column) == Self::decoded_len(array@)
                    &&& forall|i: int|
                        0 <= i < Self::column_len(&column) && 0 <= i < array@.len() && (
                        Self::DENSE_SAFE || array@.valid[i]) ==> {
                            &&& #[trigger] Self::readable(&column, i)
                            &&& array@.payload[i] matches Some(value) ==> Self::elem_at(&column, i)
                                == Self::elem_of(&value)
                        }
                },
                Err(error) => Self::DECODE_FALLIBLE && Self::decode_failure(array@) == Some(error@),
            },
    ;

    /// Decode a column that has nulls without reading behind them, or decline.
    fn decode_null_tolerant(array: &Array<Self::Value>) -> (result: Result<
        Option<Self::Column>,
        Error,
    >)
        requires
            Self::rejection(array@.dtype) is None,
        ensures
            match result {
                Ok(Some(column)) => {
                    &&& Self::null_tolerant(array@)
                    &&& Self::decode_failure(array@) is None
                    &&& Self::column_len(&column) == Self::decoded_len(array@)
                    &&& forall|i: int|
                        0 <= i < Self::column_len(&column) && 0 <= i < array@.len() && (
                        Self::DENSE_SAFE || array@.valid[i]) ==> {
                            &&& #[trigger] Self::readable(&column, i)
                            &&& array@.payload[i] matches Some(value) ==> Self::elem_at(&column, i)
                                == Self::elem_of(&value)
                        }
                },
                Ok(None) => !Self::null_tolerant(array@),
                Err(error) => {
                    &&& Self::DECODE_FALLIBLE
                    &&& Self::null_tolerant(array@)
                    &&& Self::decode_failure(array@) == Some(error@)
                },
            },
    ;

    /// Read one row.
    fn get<'a>(column: &'a Self::Column, index: usize) -> (elem: Self::Elem<'a>)
        requires
            index < Self::column_len(column),
            Self::readable(column, index as int),
        ensures
            elem == Self::elem_at(column, index as int),
    ;

    /// The view of all rows that the loop reads when no argument is constant.
    fn varying<'a>(column: &'a Self::Column) -> (varying: Self::Varying<'a>)
        ensures
            Self::viewed(&varying) == *column,
    ;

    /// The number of rows of a varying view.
    fn varying_len<'a>(varying: &Self::Varying<'a>) -> (len: usize)
        ensures
            len == Self::column_len(&Self::viewed(varying)),
    ;

    /// Read one row of a varying view.
    fn get_varying<'a>(varying: &Self::Varying<'a>, index: usize) -> (elem: Self::Elem<'a>) where
        Self: 'a,

        requires
            index < Self::column_len(&Self::viewed(varying)),
            Self::readable(&Self::viewed(varying), index as int),
        ensures
            elem == Self::elem_at(&Self::viewed(varying), index as int),
    ;
}

/// Whether row `i` of an array may be read as an `E`.
pub open spec fn may_read<E: InputElement>(array: ArrayModel<E::Value>, i: int) -> bool {
    0 <= i < array.len() && (E::DENSE_SAFE || array.valid[i])
}

/// Whether `column` is `array` decoded: every row that may be read is there, and reads as the
/// element of the row's value.
pub open spec fn decodes<E: InputElement>(
    array: ArrayModel<E::Value>,
    column: &E::Column,
) -> bool {
    &&& E::column_len(column) == E::decoded_len(array)
    &&& forall|i: int|
        0 <= i < E::column_len(column) && may_read::<E>(array, i) ==> {
            &&& #[trigger] E::readable(column, i)
            &&& array.payload[i] matches Some(value) ==> E::elem_at(column, i) == E::elem_of(&value)
        }
}

/// A fixed-width type whose values a column stores as they are.
pub trait Native: 'static + Copy {
    /// The type of a column of these, without nulls.
    open spec fn stored() -> DTypeModel {
        arbitrary()
    }

    /// The type of a column of these, without nulls.
    fn stored_dtype() -> (dtype: DType)
        ensures
            dtype@ == Self::stored(),
    ;

    /// The value that stands in for a payload that is not there.
    open spec fn zeroed() -> Self {
        arbitrary()
    }

    /// The value that stands in for a payload that is not there.
    fn zero() -> (value: Self)
        ensures
            value == Self::zeroed(),
    ;
}

impl<T: Native> InputElement for T {
    type Value = T;

    type Column = Vec<T>;

    type Varying<'a> = &'a Vec<T>;

    type Elem<'a> = T;

    const DENSE_SAFE: bool = true;

    const DECODE_FALLIBLE: bool = false;

    const FILTERED_DECODE_COST: usize = 0;

    open spec fn rejection(dtype: DTypeModel) -> Option<ErrorModel> {
        if dtype.with_nullability(Nullability::NonNullable) == T::stored() {
            None
        } else {
            Some(ErrorModel::UnexpectedDType { dtype })
        }
    }

    open spec fn decode_failure(array: ArrayModel<T>) -> Option<ErrorModel> {
        None
    }

    open spec fn null_tolerant(array: ArrayModel<T>) -> bool {
        true
    }

    open spec fn decoded_len(array: ArrayModel<T>) -> nat {
        array.len()
    }

    open spec fn elem_of<'a>(value: &'a T) -> T {
        *value
    }

    open spec fn column_len(column: &Vec<T>) -> nat {
        column@.len()
    }

    open spec fn readable(column: &Vec<T>, i: int) -> bool {
        true
    }

    open spec fn elem_at<'a>(column: &'a Vec<T>, i: int) -> T {
        column@[i]
    }

    open spec fn viewed<'a>(varying: &&'a Vec<T>) -> Vec<T> {
        **varying
    }

    fn validate(dtype: &DType) -> (result: Result<(), Error>) {
        if dtype.as_nonnullable().same(&T::stored_dtype()) {
            return Ok(());
        }
        Err(Error::UnexpectedDType { dtype: dtype.clone() })
    }

    fn decode(array: &Array<T>) -> (result: Result<Vec<T>, Error>)
        ensures
            result matches Ok(column) && column@.len() == array@.len() && forall|i: int|
                0 <= i < array@.len() ==> (array@.payload[i] matches Some(value)
                    ==> #[trigger] column@[i] == value),
    {
        let len = array.len();
        let mut column: Vec<T> = Vec::with_capacity(len);
        while column.len() < len
            invariant
                column@.len() <= len,
                len == array@.len(),
                forall|i: int|
                    0 <= i < column@.len() ==> (array@.payload[i] matches Some(value)
                        ==> #[trigger] column@[i] == value),
            decreases len - column@.len(),
        {
            let value = match array.payload(column.len()) {
                Some(value) => *value,
                None => T::zero(),
            };
            column.push(value);
        }
        Ok(column)
    }

    fn decode_null_tolerant(array: &Array<T>) -> (result: Result<Option<Vec<T>>, Error>)
        ensures
            result matches Ok(Some(column)) && column@.len() == array@.len() && forall|i: int|
                0 <= i < array@.len() ==> (array@.payload[i] matches Some(value)
                    ==> #[trigger] column@[i] == value),
    {
        match <T as InputElement>::decode(array) {
            Ok(column) => Ok(Some(column)),
            Err(error) => Err(error),
        }
    }

    fn get<'a>(column: &'a Vec<T>, index: usize) -> (elem: T)
        ensures
            elem == column@[index as int],
    {
        column[index]
    }

    fn varying<'a>(column: &'a Vec<T>) -> (varying: &'a Vec<T>)
        ensures
            varying == column,
    {
        column
    }

    fn varying_len<'a>(varying: &&'a Vec<T>) -> (len: usize)
        ensures
            len == varying@.len(),
    {
        varying.len()
    }

    fn get_varying<'a>(varying: &&'a Vec<T>, index: usize) -> (elem: T) where Self: 'a
        ensures
            elem == varying@[index as int],
    {
        varying[index]
    }
}

impl<T: Native> OutputElement for T {
    open spec fn dtype() -> DTypeModel {
        T::stored()
    }

    fn element_dtype() -> (dtype: DType) {
        T::stored_dtype()
    }

    open spec fn unseen() -> T {
        T::zeroed()
    }

    fn placeholder() -> (value: T) {
        T::zero()
    }

    fn build(values: Vec<T>) -> (array: Array<T>) {
        Array::from_values(values, T::stored_dtype())
    }
}

impl Native for bool {
    open spec fn stored() -> DTypeModel {
        DTypeModel::Bool(Nullability::NonNullable)
    }

    fn stored_dtype() -> (dtype: DType) {
        DType::Bool(Nullability::NonNullable)
    }

    open spec fn zeroed() -> bool {
        false
    }

    fn zero() -> (value: bool) {
        false
    }
}

impl Native for u8 {
    open spec fn stored() -> DTypeModel {
        DTypeModel::Primitive(PType::U8, Nullability::NonNullable)
    }

    fn stored_dtype() -> (dtype: DType) {
        DType::Primitive(PType::U8, Nullability::NonNullable)
    }

    open spec fn zeroed() -> u8 {
        0
    }

    fn zero() -> (value: u8) {
        0
    }
}

impl Native for u16 {
    open spec fn stored() -> DTypeModel {
        DTypeModel::Primitive(PType::U16, Nullability::NonNullable)
    }

    fn stored_dtype() -> (dtype: DType) {
        DType::Primitive(PType::U16, Nullability::NonNullable)
    }

    open spec fn zeroed() -> u16 {
        0
    }

    fn zero() -> (value: u16) {
        0
    }
}

impl Native for u32 {
    open spec fn stored() -> DTypeModel {
        DTypeModel::Primitive(PType::U32, Nullability::NonNullable)
    }

    fn stored_dtype() -> (dtype: DType) {
        DType::Primitive(PType::U32, Nullability::NonNullable)
    }

    open spec fn zeroed() -> u32 {
        0
    }

    fn zero() -> (value: u32) {
        0
    }
}

impl Native for u64 {
    open spec fn stored() -> DTypeModel {
        DTypeModel::Primitive(PType::U64, Nullability::NonNullable)
    }

    fn stored_dtype() -> (dtype: DType) {
        DType::Primitive(PType::U64, Nullability::NonNullable)
    }

    open spec fn zeroed() -> u64 {
        0
    }

    fn zero() -> (value: u64) {
        0
    }
}

impl Native for i8 {
    open spec fn stored() -> DTypeModel {
        DTypeModel::Primitive(PType::I8, Nullability::NonNullable)
    }

    fn stored_dtype() -> (dtype: DType) {
        DType::Primitive(PType::I8, Nullability::NonNullable)
    }

    open spec fn zeroed() -> i8 {
        0
    }

    fn zero() -> (value: i8) {
        0
    }
}

impl Native for i16 {
    open spec fn stored() -> DTypeModel {
        DTypeModel::Primitive(PType::I16, Nullability::NonNullable)
    }

    fn stored_dtype() -> (dtype: DType) {
        DType::Primitive(PType::I16, Nullability::NonNullable)
    }

    open spec fn zeroed() -> i16 {
        0
    }

    fn zero() -> (value: i16) {
        0
    }
}

impl Native for i32 {
    open spec fn stored() -> DTypeModel {
        DTypeModel::Primitive(PType::I32, Nullability::NonNullable)
    }

    fn stored_dtype() -> (dtype: DType) {
        DType::Primitive(PType::I32, Nullability::NonNullable)
    }

    open spec fn zeroed() -> i32 {
        0
    }

    fn zero() -> (value: i32) {
        0
    }
}

impl Native for i64 {
    open spec fn stored() -> DTypeModel {
        DTypeModel::Primitive(PType::I64, Nullability::NonNullable)
    }

    fn stored_dtype() -> (dtype: DType) {
        DType::Primitive(PType::I64, Nullability::NonNullable)
    }

    open spec fn zeroed() -> i64 {
        0
    }

    fn zero() -> (value: i64) {
        0
    }
}

/// What a fixed-width element claims: it may be read where it is null, and decoding it neither
/// fails nor gains from filtering.
pub proof fn native_claims<T: Native>()
    ensures
        <T as InputElement>::DENSE_SAFE,
        !<T as InputElement>::DECODE_FALLIBLE,
        <T as InputElement>::FILTERED_DECODE_COST == 0,
{
}

/// The type of a column of each fixed-width type: the one of its width and sign, without nulls.
/// What stands in for a payload that is not there is zero, or `false`.
pub proof fn fixed_width_types_are_stored_as_they_are()
    ensures
        <bool as Native>::stored() == DTypeModel::Bool(Nullability::NonNullable),
        <u8 as Native>::stored() == DTypeModel::Primitive(PType::U8, Nullability::NonNullable),
        <u16 as Native>::stored() == DTypeModel::Primitive(PType::U16, Nullability::NonNullable),
        <u32 as Native>::stored() == DTypeModel::Primitive(PType::U32, Nullability::NonNullable),
        <u64 as Native>::stored() == DTypeModel::Primitive(PType::U64, Nullability::NonNullable),
        <i8 as Native>::stored() == DTypeModel::Primitive(PType::I8, Nullability::NonNullable),
        <i16 as Native>::stored() == DTypeModel::Primitive(PType::I16, Nullability::NonNullable),
        <i32 as Native>::stored() == DTypeModel::Primitive(PType::I32, Nullability::NonNullable),
        <i64 as Native>::stored() == DTypeModel::Primitive(PType::I64, Nullability::NonNullable),
        !<bool as Native>::zeroed(),
        <u8 as Native>::zeroed() == 0,
        <u16 as Native>::zeroed() == 0,
        <u32 as Native>::zeroed() == 0,
        <u64 as Native>::zeroed() == 0,
        <i8 as Native>::zeroed() == 0,
        <i16 as Native>::zeroed() == 0,
        <i32 as Native>::zeroed() == 0,
        <i64 as Native>::zeroed() == 0,
{
}

/// A fixed-width element is read from columns of its own type, nullable or not, and from no other.
pub proof fn fixed_width_elements_take_their_own_type<T: Native>(
    dtype: DType,
    result: Result<(), Error>,
)
    requires
        call_ensures(<T as InputElement>::validate, (&dtype,), result),
    ensures
        result is Ok <==> dtype@.with_nullability(Nullability::NonNullable) == T::stored(),
        result matches Err(error) ==> error@ == (ErrorModel::UnexpectedDType { dtype: dtype@ }),
{
}

/// A fixed-width column is read as what it stores: every row, null or not, is the value behind it
/// where there is one, whichever way it is read.
pub proof fn fixed_width_rows_are_read_as_stored<T: Native>(
    array: Array<T>,
    decoded: Result<Vec<T>, Error>,
    tolerant: Result<Option<Vec<T>>, Error>,
    column: Vec<T>,
    varying: &Vec<T>,
    len: usize,
    i: usize,
    elem: T,
    varying_elem: T,
)
    requires
        call_ensures(<T as InputElement>::decode, (&array,), decoded),
        call_ensures(<T as InputElement>::decode_null_tolerant, (&array,), tolerant),
        decoded == Ok::<Vec<T>, Error>(column) || tolerant == Ok::<Option<Vec<T>>, Error>(
            Some(column),
        ),
        call_ensures(<T as InputElement>::varying, (&column,), varying),
        call_ensures(<T as InputElement>::varying_len, (&varying,), len),
        i < array@.len(),
        call_ensures(<T as InputElement>::get, (&column, i), elem),
        call_ensures(<T as InputElement>::get_varying, (&varying, i), varying_elem),
    ensures
        decoded is Ok,
        tolerant matches Ok(Some(_)),
        len == array@.len(),
        array@.payload[i as int] matches Some(value) ==> elem == value && varying_elem == value,
        varying_elem == elem,
{
    native_claims::<T>();
    assert(<T as InputElement>::readable(&column, i as int));
}

/// The element of a fixed-width value is the value.
pub proof fn fixed_width_values_are_their_elements<T: Native>(value: T)
    ensures
        <T as InputElement>::elem_of(&value) == value,
{
}

/// A column that is built of fixed-width values holds them, in order, none of them null.
pub proof fn fixed_width_values_build_a_column<T: Native>(values: Vec<T>, array: Array<T>)
    requires
        call_ensures(<T as OutputElement>::build, (values,), array),
    ensures
        array@.dtype == T::stored(),
        array@.valid.len() == values@.len(),
        forall|i: int|
            0 <= i < values@.len() ==> #[trigger] array@.valid[i] && array@.payload[i] == Some(
                values@[i],
            ),
{
}

} // verus!
