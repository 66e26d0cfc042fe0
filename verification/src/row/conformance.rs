//! A shared conformance check every [`InputElement`] should be run through.

use vstd::prelude::*;

use crate::array::{Array, ArrayModel};
use crate::dtype::{DType, DTypeModel};
use crate::error::{Error, ErrorModel};
use crate::mask::all_set;
use crate::row::element::{decodes, may_read, InputElement};

verus! {

/// What stands in the way of checking an element over an array, or speaks against the element.
pub open spec fn conformance_failure<E: InputElement>(
    array: ArrayModel<E::Value>,
    rejected_dtype: DTypeModel,
) -> Option<ErrorModel> {
    if E::rejection(array.dtype) is Some {
        E::rejection(array.dtype)
    } else if E::rejection(rejected_dtype) is None {
        Some(ErrorModel::AcceptedDType { dtype: rejected_dtype })
    } else if all_set(array.valid) {
        Some(ErrorModel::NoNullRow { dtype: array.dtype })
    } else if E::decode_failure(array) is Some {
        E::decode_failure(array)
    } else if E::decoded_len(array) != array.len() {
        Some(ErrorModel::DecodedRows { got: E::decoded_len(array), expected: array.len() })
    } else {
        None
    }
}

/// Whether row `i` of a column may have been read.
pub open spec fn got<E: InputElement>(column: &E::Column, i: int) -> bool {
    exists|elem: E::Elem<'_>| #[trigger] call_ensures(E::get, (column, i as usize), elem)
}

/// Whether row `i` of a varying view may have been read.
pub open spec fn got_varying<E: InputElement>(varying: &E::Varying<'_>, i: int) -> bool {
    exists|elem: E::Elem<'_>| #[trigger] call_ensures(E::get_varying, (varying, i as usize), elem)
}

/// Whether every row of `array` that may be read was read, out of what it decodes into and out of
/// the varying view of that.
pub open spec fn rows_read<E: InputElement>(
    array: ArrayModel<E::Value>,
    column: &E::Column,
    varying: &E::Varying<'_>,
) -> bool {
    &&& decodes::<E>(array, column)
    &&& E::viewed(varying) == *column
    &&& forall|i: int| #[trigger]
        may_read::<E>(array, i) ==> got::<E>(column, i) && got_varying::<E>(varying, i)
}

/// Check that `E` honors its [`InputElement`] contract over `array`, and rejects `rejected_dtype`,
/// and say what speaks against either where something does.
///
/// The part worth checking mechanically is [`InputElement::DENSE_SAFE`]. An element claiming it
/// will be read at rows that are *null*, where an array guarantees nothing about the payload. So
/// `array` must contain at least one null row, and its payload behind those nulls should be
/// deliberately extreme rather than zeroed.
///
/// What this cannot check: [`InputElement::DECODE_FALLIBLE`], which needs data that is legal but
/// malformed, and whether `validate` accepts everything it should, since only the element knows its
/// full domain. Pass one representative rejection.
pub fn check_element_conforms<E: InputElement>(
    array: Array<E::Value>,
    rejected_dtype: &DType,
) -> (result: Result<(), Error>)
    ensures
        match result {
            Ok(_) => {
                &&& conformance_failure::<E>(array@, rejected_dtype@) is None
                &&& exists|column: &E::Column, varying: &E::Varying<'_>| #[trigger]
                    rows_read::<E>(array@, column, varying)
            },
            Err(error) => conformance_failure::<E>(array@, rejected_dtype@) == Some(error@),
        },
{
    match E::validate(array.dtype()) {
        Ok(_) => {},
        Err(error) => return Err(error),
    }
    match E::validate(rejected_dtype) {
        Ok(_) => return Err(Error::AcceptedDType { dtype: rejected_dtype.clone() }),
        Err(_) => {},
    }
    let len = array.len();
    let valid = array.validity();
    if valid.all_true() {
        return Err(Error::NoNullRow { dtype: array.dtype().clone() });
    }
    let column = match E::decode(&array) {
        Ok(column) => column,
        Err(error) => return Err(error),
    };
    let varying = E::varying(&column);
    let decoded = E::varying_len(&varying);
    if decoded != len {
        return Err(Error::DecodedRows { got: decoded, expected: len });
    }
    // The claim under test. Reading a null row may yield garbage, but it must not fault.
    let mut index: usize = 0;
    while index < len
        invariant
            index <= len,
            len == array@.len(),
            valid@ == array@.valid,
            len == E::column_len(&column),
            E::viewed(&varying) == column,
            forall|i: int|
                0 <= i < index && #[trigger] may_read::<E>(array@, i) ==> got::<E>(&column, i)
                    && got_varying::<E>(&varying, i),
            forall|i: int|
                0 <= i < len && (E::DENSE_SAFE || array@.valid[i]) ==> #[trigger] E::readable(
                    &column,
                    i,
                ),
        decreases len - index,
    {
        if E::DENSE_SAFE || valid.value(index) {
            assert(E::readable(&column, index as int));
            let elem = E::get(&column, index);
            assert(call_ensures(E::get, (&column, index), elem));
            let elem = E::get_varying(&varying, index);
            assert(call_ensures(E::get_varying, (&varying, index), elem));
        }
        index += 1;
    }
    assert(rows_read::<E>(array@, &column, &varying));
    Ok(())
}

/// Check that `E` honors its [`InputElement`] contract over `array`, which must not speak against
/// it: `E` rejects `rejected_dtype`, some row of `array` is null, and what decodes keeps its rows.
///
/// [`check_element_conforms`] runs the same check where that is not known.
pub fn assert_element_conforms<E: InputElement>(
    array: Array<E::Value>,
    rejected_dtype: &DType,
) -> (result: Result<(), Error>)
    requires
        E::rejection(array@.dtype) is None ==> {
            &&& E::rejection(rejected_dtype@) is Some
            &&& !all_set(array@.valid)
            &&& E::decode_failure(array@) is None ==> E::decoded_len(array@) == array@.len()
        },
    ensures
        match result {
            Ok(_) => {
                &&& conformance_failure::<E>(array@, rejected_dtype@) is None
                &&& exists|column: &E::Column, varying: &E::Varying<'_>| #[trigger]
                    rows_read::<E>(array@, column, varying)
            },
            Err(error) => if E::rejection(array@.dtype) is Some {
                E::rejection(array@.dtype) == Some(error@)
            } else {
                E::decode_failure(array@) == Some(error@)
            },
        },
{
    check_element_conforms::<E>(array, rejected_dtype)
}

/// What an element is checked for. It passes exactly where it takes the type of the array and not
/// the type that it is to reject, some row of the array is null, and the array decodes into as many
/// rows as it has. Every row that may be read, which is every one of an element that may be read
/// behind nulls, has then been read, both ways.
pub proof fn conforming_elements_were_read<E: InputElement>(
    array: Array<E::Value>,
    rejected_dtype: &DType,
    result: Result<(), Error>,
)
    requires
        call_ensures(check_element_conforms::<E>, (array, rejected_dtype), result),
    ensures
        result is Ok <==> {
            &&& E::rejection(array@.dtype) is None
            &&& E::rejection(rejected_dtype@) is Some
            &&& exists|i: int| 0 <= i < array@.len() && !#[trigger] array@.valid[i]
            &&& E::decode_failure(array@) is None
            &&& E::decoded_len(array@) == array@.len()
        },
        result is Ok ==> exists|column: &E::Column, varying: &E::Varying<'_>|
            {
                &&& #[trigger] rows_read::<E>(array@, column, varying)
                &&& forall|i: int|
                    0 <= i < array@.len() && (E::DENSE_SAFE || #[trigger] array@.valid[i]) ==> {
                        &&& got::<E>(column, i)
                        &&& got_varying::<E>(varying, i)
                    }
            },
        match result {
            Ok(_) => true,
            Err(error) => {
                &&& E::rejection(array@.dtype) is Some ==> E::rejection(array@.dtype) == Some(
                    error@,
                )
                &&& E::rejection(array@.dtype) is None && E::rejection(rejected_dtype@) is None
                    ==> error@ == (ErrorModel::AcceptedDType { dtype: rejected_dtype@ })
                &&& E::rejection(array@.dtype) is None && E::rejection(rejected_dtype@) is Some && (
                forall|i: int| 0 <= i < array@.len() ==> #[trigger] array@.valid[i]) ==> error@ == (
                ErrorModel::NoNullRow { dtype: array@.dtype })
                &&& E::rejection(array@.dtype) is None && E::rejection(rejected_dtype@) is Some && (
                exists|i: int| 0 <= i < array@.len() && !#[trigger] array@.valid[i])
                    ==> if E::decode_failure(array@) is Some {
                    E::decode_failure(array@) == Some(error@)
                } else {
                    error@ == (ErrorModel::DecodedRows {
                        got: E::decoded_len(array@),
                        expected: array@.len(),
                    })
                }
            },
        },
{
    if result is Ok {
        let null = choose|i: int| 0 <= i < array@.len() && !array@.valid[i];
        assert(!array@.valid[null]);
        let (column, varying) = choose|column: &E::Column, varying: &E::Varying<'_>| #[trigger]
            rows_read::<E>(array@, column, varying);
        assert forall|i: int|
            0 <= i < array@.len() && (E::DENSE_SAFE || #[trigger] array@.valid[i]) implies {
            &&& got::<E>(column, i)
            &&& got_varying::<E>(varying, i)
        } by {
            assert(may_read::<E>(array@, i));
        }
    } else if exists|i: int| 0 <= i < array@.len() && !#[trigger] array@.valid[i] {
        let null = choose|i: int| 0 <= i < array@.len() && !#[trigger] array@.valid[i];
        assert(!all_set(array@.valid));
    }
}

/// An element that nothing else speaks against conforms exactly where it takes the type of the
/// array and the array decodes, and the error is that of whichever fails first.
pub proof fn asserted_elements_take_and_decode<E: InputElement>(
    array: Array<E::Value>,
    rejected_dtype: &DType,
    result: Result<(), Error>,
)
    requires
        E::rejection(array@.dtype) is None ==> {
            &&& E::rejection(rejected_dtype@) is Some
            &&& exists|i: int| 0 <= i < array@.len() && !#[trigger] array@.valid[i]
            &&& E::decode_failure(array@) is None ==> E::decoded_len(array@) == array@.len()
        },
        call_ensures(assert_element_conforms::<E>, (array, rejected_dtype), result),
    ensures
        result is Ok <==> E::rejection(array@.dtype) is None && E::decode_failure(array@) is None,
        result matches Err(error) ==> if E::rejection(array@.dtype) is Some {
            E::rejection(array@.dtype) == Some(error@)
        } else {
            E::decode_failure(array@) == Some(error@)
        },
{
}

} // verus!
