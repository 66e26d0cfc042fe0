//! Tensors stored as directions and norms.

use vstd::prelude::*;

use crate::array::{Array, ArrayModel};
use crate::error::{Error, ErrorModel};

verus! {

/// A tensor column in which every row is stored as a direction and a norm: the tensor of a row is
/// its direction, scaled by its norm.
#[derive(Debug)]
pub struct NormalizedArray<T> {
    normalized: Array<Vec<T>>,
    norms: Array<T>,
}

impl<T> NormalizedArray<T> {
    #[verifier::type_invariant]
    pub closed spec fn inv(self) -> bool {
        self.normalized@.len() == self.norms@.len()
    }

    /// The directions.
    pub closed spec fn directions(self) -> ArrayModel<Vec<T>> {
        self.normalized@
    }

    /// The norms.
    pub closed spec fn scales(self) -> ArrayModel<T> {
        self.norms@
    }

    /// A direction and a norm for each row.
    pub fn try_new(normalized: Array<Vec<T>>, norms: Array<T>) -> (result: Result<
        NormalizedArray<T>,
        Error,
    >)
        ensures
            match result {
                Ok(array) => {
                    &&& normalized@.len() == norms@.len()
                    &&& array.directions() == normalized@
                    &&& array.scales() == norms@
                },
                Err(error) => normalized@.len() != norms@.len() && error@
                    == (ErrorModel::ColumnRows { row_count: normalized@.len() }),
            },
    {
        if normalized.len() != norms.len() {
            return Err(Error::ColumnRows { row_count: normalized.len() });
        }
        Ok(NormalizedArray { normalized, norms })
    }

    pub fn len(&self) -> (len: usize)
        ensures
            len == self.directions().len(),
            len == self.scales().len(),
    {
        proof {
            use_type_invariant(self);
        }
        self.normalized.len()
    }

    /// The directions and the norms.
    pub fn children(&self) -> (children: (&Array<Vec<T>>, &Array<T>))
        ensures
            children.0@ == self.directions(),
            children.1@ == self.scales(),
    {
        (&self.normalized, &self.norms)
    }
}

/// A tensor column, stored one way or the other.
pub enum TensorOperand<'a, T> {
    Plain(&'a Array<Vec<T>>),
    Normalized(&'a NormalizedArray<T>),
}

impl<'a, T> TensorOperand<'a, T> {
    /// Whether what the column is stored as is well formed, with a norm for each direction.
    pub open spec fn wf(self) -> bool {
        match self {
            TensorOperand::Plain(array) => array@.wf(),
            TensorOperand::Normalized(array) => {
                &&& array.directions().wf()
                &&& array.scales().wf()
                &&& array.directions().len() == array.scales().len()
            },
        }
    }

    pub open spec fn rows(self) -> nat {
        match self {
            TensorOperand::Plain(array) => array@.len(),
            TensorOperand::Normalized(array) => array.directions().len(),
        }
    }

    pub fn len(&self) -> (len: usize)
        ensures
            len == self.rows(),
            self.wf(),
    {
        match self {
            TensorOperand::Plain(array) => {
                proof {
                    use_type_invariant(*array);
                    Array::lemma_wf(**array);
                }
                array.len()
            },
            TensorOperand::Normalized(array) => {
                let (normalized, norms) = array.children();
                proof {
                    use_type_invariant(normalized);
                    Array::lemma_wf(*normalized);
                    use_type_invariant(norms);
                    Array::lemma_wf(*norms);
                }
                array.len()
            },
        }
    }
}

/// Which of two operands are stored as directions and norms.
pub enum NormalizedOrientation<'a, T> {
    Both { lhs: &'a NormalizedArray<T>, rhs: &'a NormalizedArray<T> },
    One { normalized_array: &'a NormalizedArray<T>, plain: &'a Array<Vec<T>> },
    Neither,
}

/// Which of two operands are stored as directions and norms.
pub fn classify<'a, T>(lhs: &TensorOperand<'a, T>, rhs: &TensorOperand<'a, T>) -> (orientation:
    NormalizedOrientation<'a, T>)
    ensures
        orientation == match (*lhs, *rhs) {
            (TensorOperand::Normalized(lhs), TensorOperand::Normalized(rhs)) => {
                NormalizedOrientation::Both { lhs, rhs }
            },
            (TensorOperand::Normalized(normalized_array), TensorOperand::Plain(plain)) => {
                NormalizedOrientation::One { normalized_array, plain }
            },
            (TensorOperand::Plain(plain), TensorOperand::Normalized(normalized_array)) => {
                NormalizedOrientation::One { normalized_array, plain }
            },
            (TensorOperand::Plain(_), TensorOperand::Plain(_)) => NormalizedOrientation::Neither,
        },
{
    match (lhs, rhs) {
        (TensorOperand::Normalized(lhs), TensorOperand::Normalized(rhs)) => {
            NormalizedOrientation::Both { lhs, rhs }
        },
        (TensorOperand::Normalized(normalized_array), TensorOperand::Plain(plain)) => {
            NormalizedOrientation::One { normalized_array, plain }
        },
        (TensorOperand::Plain(plain), TensorOperand::Normalized(normalized_array)) => {
            NormalizedOrientation::One { normalized_array, plain }
        },
        (TensorOperand::Plain(_), TensorOperand::Plain(_)) => NormalizedOrientation::Neither,
    }
}

/// Directions and norms are put together exactly where there is one of each for every row, and are
/// handed out as they were put in.
pub proof fn directions_and_norms_are_handed_back<T>(
    normalized: Array<Vec<T>>,
    norms: Array<T>,
    result: Result<NormalizedArray<T>, Error>,
    array: NormalizedArray<T>,
    len: usize,
    children: (&Array<Vec<T>>, &Array<T>),
)
    requires
        call_ensures(NormalizedArray::<T>::try_new, (normalized, norms), result),
        result is Ok ==> array == result->Ok_0,
        call_ensures(NormalizedArray::<T>::len, (&array,), len),
        call_ensures(NormalizedArray::<T>::children, (&array,), children),
    ensures
        result is Ok <==> normalized@.len() == norms@.len(),
        result matches Err(error) ==> error@ == (ErrorModel::ColumnRows {
            row_count: normalized@.len(),
        }),
        result is Ok ==> {
            &&& len == normalized@.len()
            &&& children.0@ == normalized@
            &&& children.1@ == norms@
            &&& array.directions() == normalized@
            &&& array.scales() == norms@
        },
{
}

/// Two operands are told apart by how they are stored, and none is changed or mistaken for the
/// other: where both are stored as directions and norms they stay in order.
pub proof fn operands_are_told_apart<'a, T>(
    lhs: TensorOperand<'a, T>,
    rhs: TensorOperand<'a, T>,
    orientation: NormalizedOrientation<'a, T>,
)
    requires
        call_ensures(classify::<T>, (&lhs, &rhs), orientation),
    ensures
        orientation is Neither <==> lhs is Plain && rhs is Plain,
        orientation is Both <==> lhs is Normalized && rhs is Normalized,
        match orientation {
            NormalizedOrientation::Both { lhs: left, rhs: right } => {
                &&& lhs == TensorOperand::Normalized(left)
                &&& rhs == TensorOperand::Normalized(right)
            },
            NormalizedOrientation::One { normalized_array, plain } => if lhs is Normalized {
                lhs == TensorOperand::Normalized(normalized_array) && rhs == TensorOperand::Plain(
                    plain,
                )
            } else {
                rhs == TensorOperand::Normalized(normalized_array) && lhs == TensorOperand::Plain(
                    plain,
                )
            },
            NormalizedOrientation::Neither => true,
        },
{
}

} // verus!
