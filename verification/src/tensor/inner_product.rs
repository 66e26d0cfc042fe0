//! Inner product of tensor-like columns.

use std::marker::PhantomData;

use vstd::prelude::*;

use crate::array::{Array, ArrayModel};
use crate::dtype::{models, DType, DTypeModel, ExtModel, Nullability, PType};
use crate::error::{Error, ErrorModel};
use crate::row::element::{native_claims, InputElement};
use crate::row::execute::row_sink_rejection;
use crate::row::laws::{infallible_functions_succeed, lifting_is_strict};
use crate::row::lift::{execute, executed, validity};
use crate::row::result::outcome_claims;
use crate::row::row_fn::{coherent, policy, return_dtype, EmptyOptions, RowFn, RowPolicy};
use crate::row::sink::ElementSink;
use crate::row::tuple::{argument_claims, no_argument_claims, ElementTuple};
use crate::tensor::element::{
    same_kind, tensor_element, tensor_element_ptype, tensor_rejection, tensor_rejection_from,
    tensor_row_claims, Arithmetic, TensorRow,
};
use crate::tensor::normalized::{classify, NormalizedOrientation, TensorOperand};
use crate::tensor::numbers::{
    inner_product_is_symmetric, norm_factors_out, norms_factor_out, Numbers,
};

verus! {

/// The number of pairs of two rows.
pub open spec fn pairs<T>(a: Seq<T>, b: Seq<T>) -> nat {
    if a.len() <= b.len() {
        a.len()
    } else {
        b.len()
    }
}

/// Whether `products` and `sums` may come up when the first `n` pairs of two rows are multiplied
/// and the products added up in order.
pub open spec fn adds_up<T: Arithmetic>(
    a: Seq<T>,
    b: Seq<T>,
    n: nat,
    products: Seq<T>,
    sums: Seq<T>,
) -> bool {
    &&& products.len() == n
    &&& sums.len() == n + 1
    &&& call_ensures(T::nothing, (), sums[0])
    &&& forall|k: int|
        0 <= k < n ==> {
            &&& call_ensures(T::times, (a[k], b[k]), #[trigger] products[k])
            &&& call_ensures(T::plus, (sums[k], products[k]), sums[k + 1])
        }
}

/// Whether `result` may be the sum of the products of two rows, in order.
pub open spec fn is_inner_product<T: Arithmetic>(a: Seq<T>, b: Seq<T>, result: T) -> bool {
    exists|products: Seq<T>, sums: Seq<T>| #[trigger]
        adds_up(a, b, pairs(a, b), products, sums) && result == sums.last()
}

/// Compute the inner product (dot product) of two rows: the sum of `a_i * b_i`, in order.
pub fn inner_product_row<T: Arithmetic>(a: &[T], b: &[T]) -> (result: T)
    ensures
        is_inner_product(a@, b@, result),
{
    let len = if a.len() <= b.len() {
        a.len()
    } else {
        b.len()
    };
    let mut sum = T::nothing();
    let ghost mut products: Seq<T> = Seq::empty();
    let ghost mut sums: Seq<T> = seq![sum];
    let mut k: usize = 0;
    while k < len
        invariant
            k <= len,
            len == pairs(a@, b@),
            adds_up(a@, b@, k as nat, products, sums),
            sum == sums.last(),
        decreases len - k,
    {
        let product = a[k].times(b[k]);
        sum = sum.plus(product);
        proof {
            let before = sums;
            products = products.push(product);
            sums = sums.push(sum);
            assert forall|j: int| 0 <= j < k + 1 implies {
                &&& call_ensures(T::times, (a@[j], b@[j]), #[trigger] products[j])
                &&& call_ensures(T::plus, (sums[j], products[j]), sums[j + 1])
            } by {
                if j < k {
                    assert(products[j] == products.drop_last()[j]);
                    assert(sums[j] == before[j] && sums[j + 1] == before[j + 1]);
                }
            }
        }
        k += 1;
    }
    sum
}

/// Inner product (dot product) between two columns.
///
/// Computes `sum(a_i * b_i)` over the flat elements of each tensor or vector. For vectors this is
/// the standard dot product; for higher-rank tensors this is the Frobenius inner product.
///
/// Both inputs must be tensor-like columns of the same type with a float element type, whose width
/// is `T`. The output is a column of the same float type.
#[derive(Debug)]
pub struct InnerProduct<T> {
    marker: PhantomData<T>,
}

impl<T> Default for InnerProduct<T> {
    fn default() -> Self {
        InnerProduct { marker: PhantomData }
    }
}

impl<T: Arithmetic> RowFn for InnerProduct<T> {
    type Args = (TensorRow<T>, (TensorRow<T>, ()));

    type Sink = ElementSink<T>;

    type State = ();

    type Outcome = ();

    const FALLIBLE: bool = false;

    open spec fn computes<'a>(
        &'a self,
        state: (),
        elems: (&'a Vec<T>, (&'a Vec<T>, ())),
        before: T,
        after: T,
        outcome: (),
    ) -> bool {
        is_inner_product(elems.0@, elems.1.0@, after)
    }

    open spec fn reduces(
        &self,
        batch: (ArrayModel<Vec<T>>, (ArrayModel<Vec<T>>, ())),
        reduced: Result<Option<Array<T>>, Error>,
    ) -> bool {
        reduced matches Ok(None)
    }

    open spec fn argument(index: int) -> Seq<char> {
        if index == 0 {
            "lhs"@
        } else {
            "rhs"@
        }
    }

    fn id(&self) -> (id: String)
        ensures
            id@ == "vortex.tensor.inner_product"@,
    {
        "vortex.tensor.inner_product".to_owned()
    }

    fn arg_name(&self, index: usize) -> (name: String) {
        if index == 0 {
            "lhs".to_owned()
        } else {
            "rhs".to_owned()
        }
    }

    fn prepare<'a>(&self, consts: (Option<&'a Vec<T>>, (Option<&'a Vec<T>>, ()))) -> (state: ()) {
    }

    fn apply<'a>(
        &self,
        state: &(),
        elems: (&'a Vec<T>, (&'a Vec<T>, ())),
        slot: &mut T,
    ) -> (outcome: ()) {
        *slot = inner_product_row(elems.0.as_slice(), elems.1.0.as_slice());
    }

    fn reduce_encoded(&self, args: &(Array<Vec<T>>, (Array<Vec<T>>, ()))) -> (reduced: Result<
        Option<Array<T>>,
        Error,
    >) {
        Ok(None)
    }

    fn serialize(&self) -> (result: Result<Option<Vec<u8>>, Error>)
        ensures
            result matches Ok(Some(bytes)) && bytes@.len() == 0,
    {
        Ok(Some(Vec::new()))
    }

    fn deserialize(&self, metadata: &[u8]) -> (result: Result<EmptyOptions, Error>)
        ensures
            result == Ok::<EmptyOptions, Error>(EmptyOptions),
    {
        Ok(EmptyOptions)
    }
}

/// Rowwise product of two columns of `T`s.
#[derive(Debug)]
pub struct Product<T> {
    marker: PhantomData<T>,
}

impl<T> Default for Product<T> {
    fn default() -> Self {
        Product { marker: PhantomData }
    }
}

impl<T: Arithmetic> RowFn for Product<T> {
    type Args = (T, (T, ()));

    type Sink = ElementSink<T>;

    type State = ();

    type Outcome = ();

    const FALLIBLE: bool = false;

    open spec fn computes<'a>(
        &'a self,
        state: (),
        elems: (T, (T, ())),
        before: T,
        after: T,
        outcome: (),
    ) -> bool {
        call_ensures(T::times, (elems.0, elems.1.0), after)
    }

    open spec fn reduces(
        &self,
        batch: (ArrayModel<T>, (ArrayModel<T>, ())),
        reduced: Result<Option<Array<T>>, Error>,
    ) -> bool {
        reduced matches Ok(None)
    }

    open spec fn argument(index: int) -> Seq<char> {
        if index == 0 {
            "lhs"@
        } else {
            "rhs"@
        }
    }

    fn id(&self) -> (id: String)
        ensures
            id@ == "vortex.mul"@,
    {
        "vortex.mul".to_owned()
    }

    fn arg_name(&self, index: usize) -> (name: String) {
        if index == 0 {
            "lhs".to_owned()
        } else {
            "rhs".to_owned()
        }
    }

    fn prepare<'a>(&self, consts: (Option<T>, (Option<T>, ()))) -> (state: ()) {
    }

    fn apply<'a>(&self, state: &(), elems: (T, (T, ())), slot: &mut T) -> (outcome: ()) {
        *slot = elems.0.times(elems.1.0);
    }

    fn reduce_encoded(&self, args: &(Array<T>, (Array<T>, ()))) -> (reduced: Result<
        Option<Array<T>>,
        Error,
    >) {
        Ok(None)
    }
}

/// An inner product that is yet to be computed, and the norms that it is yet to be scaled by.
pub enum LazyProduct<'a, T> {
    Dot { lhs: &'a Array<Vec<T>>, rhs: &'a Array<Vec<T>> },
    Scaled { product: Box<LazyProduct<'a, T>>, norms: &'a Array<T> },
}

/// What a [`LazyProduct`] denotes.
pub enum LazyModel<T> {
    Dot { lhs: ArrayModel<Vec<T>>, rhs: ArrayModel<Vec<T>> },
    Scaled { product: Box<LazyModel<T>>, norms: ArrayModel<T> },
}

impl<'a, T> LazyProduct<'a, T> {
    pub open spec fn model(self) -> LazyModel<T>
        decreases self,
    {
        match self {
            LazyProduct::Dot { lhs, rhs } => LazyModel::Dot { lhs: lhs@, rhs: rhs@ },
            LazyProduct::Scaled { product, norms } => LazyModel::Scaled {
                product: Box::new((*product).model()),
                norms: norms@,
            },
        }
    }
}

impl<T> LazyModel<T> {
    pub open spec fn len(self) -> nat
        decreases self,
    {
        match self {
            LazyModel::Dot { lhs, .. } => lhs.len(),
            LazyModel::Scaled { product, .. } => product.len(),
        }
    }
}

/// Why no inner product is taken of two columns.
pub open spec fn dot_rejection<T: Arithmetic>(
    lhs: ArrayModel<Vec<T>>,
    rhs: ArrayModel<Vec<T>>,
    len: nat,
) -> Option<ErrorModel> {
    let dtypes = seq![lhs.dtype, rhs.dtype];
    if tensor_rejection(dtypes) is Some {
        tensor_rejection(dtypes)
    } else if row_sink_rejection::<
        (TensorRow<T>, (TensorRow<T>, ())),
        ElementSink<T>,
    >(dtypes) is Some {
        row_sink_rejection::<(TensorRow<T>, (TensorRow<T>, ())), ElementSink<T>>(dtypes)
    } else if lhs.len() != len || rhs.len() != len {
        Some(ErrorModel::ColumnRows { row_count: len })
    } else {
        None
    }
}

/// Why an inner product is not scaled by some norms.
pub open spec fn scale_rejection<T: Arithmetic>(
    norms: ArrayModel<T>,
    len: nat,
) -> Option<ErrorModel> {
    if <T as InputElement>::rejection(norms.dtype) is Some {
        <T as InputElement>::rejection(norms.dtype)
    } else if norms.len() != len {
        Some(ErrorModel::ColumnRows { row_count: len })
    } else {
        None
    }
}

impl<T: Arithmetic> InnerProduct<T> {
    /// The float width at which columns of these types are multiplied.
    pub fn dispatch(&self, args: &[DType]) -> (result: Result<PType, Error>)
        ensures
            match result {
                Ok(element) => {
                    &&& tensor_rejection(models(args@)) is None
                    &&& tensor_element(models(args@)[0]) == Some(element)
                },
                Err(error) => tensor_rejection(models(args@)) == Some(error@),
            },
    {
        tensor_element_ptype(args)
    }

    /// A lazy inner product of two columns of `len` rows.
    pub fn try_new_array<'a>(
        &self,
        len: usize,
        lhs: &'a Array<Vec<T>>,
        rhs: &'a Array<Vec<T>>,
    ) -> (result: Result<LazyProduct<'a, T>, Error>)
        ensures
            match result {
                Ok(product) => {
                    &&& dot_rejection::<T>(lhs@, rhs@, len as nat) is None
                    &&& product.model() == (LazyModel::Dot { lhs: lhs@, rhs: rhs@ })
                },
                Err(error) => dot_rejection::<T>(lhs@, rhs@, len as nat) == Some(error@),
            },
    {
        let dtypes = [lhs.dtype().clone(), rhs.dtype().clone()];
        assert(models(dtypes@) =~= seq![lhs@.dtype, rhs@.dtype]);
        match self.dispatch(dtypes.as_slice()) {
            Ok(_) => {},
            Err(error) => return Err(error),
        }
        match return_dtype::<InnerProduct<T>>(dtypes.as_slice()) {
            Ok(_) => {},
            Err(error) => return Err(error),
        }
        if lhs.len() != len || rhs.len() != len {
            return Err(Error::ColumnRows { row_count: len });
        }
        Ok(LazyProduct::Dot { lhs, rhs })
    }

    /// Factor operands that are stored as directions and norms: with `D(x, s)` denoting `x * s`
    /// rowwise, `dot(D(x, s), D(y, t)) = s * t * dot(x, y)` and `dot(D(x, s), y) = s * dot(x, y)`.
    /// The products are left to be computed over the norms, which are much smaller than the
    /// coordinates.
    pub fn reduce_encoded_operands<'a>(
        &self,
        lhs: &TensorOperand<'a, T>,
        rhs: &TensorOperand<'a, T>,
    ) -> (result: Result<Option<LazyProduct<'a, T>>, Error>)
        ensures
            reduction(*lhs, *rhs, result),
    {
        let len = lhs.len();
        proof {
            reveal_with_fuel(lazy_rejection, 4);
        }
        match classify(lhs, rhs) {
            NormalizedOrientation::Both { lhs, rhs } => {
                let (normalized_l, norms_l) = lhs.children();
                let (normalized_r, norms_r) = rhs.children();
                let dot = match self.try_new_array(len, normalized_l, normalized_r) {
                    Ok(dot) => dot,
                    Err(error) => return Err(error),
                };
                let once = match scaled(dot, norms_l, len) {
                    Ok(once) => once,
                    Err(error) => return Err(error),
                };
                match scaled(once, norms_r, len) {
                    Ok(twice) => Ok(Some(twice)),
                    Err(error) => Err(error),
                }
            },
            NormalizedOrientation::One { normalized_array, plain } => {
                let (normalized, norms) = normalized_array.children();
                let dot = match self.try_new_array(len, normalized, plain) {
                    Ok(dot) => dot,
                    Err(error) => return Err(error),
                };
                match scaled(dot, norms, len) {
                    Ok(once) => Ok(Some(once)),
                    Err(error) => Err(error),
                }
            },
            NormalizedOrientation::Neither => Ok(None),
        }
    }
}

/// A lazy product, to be scaled by `norms` of `len` rows.
fn scaled<'a, T: Arithmetic>(
    product: LazyProduct<'a, T>,
    norms: &'a Array<T>,
    len: usize,
) -> (result: Result<LazyProduct<'a, T>, Error>)
    ensures
        match result {
            Ok(scaled) => {
                &&& scale_rejection::<T>(norms@, len as nat) is None
                &&& scaled.model() == (LazyModel::Scaled {
                    product: Box::new(product.model()),
                    norms: norms@,
                })
            },
            Err(error) => scale_rejection::<T>(norms@, len as nat) == Some(error@),
        },
{
    match <T as InputElement>::validate(norms.dtype()) {
        Ok(_) => {},
        Err(error) => return Err(error),
    }
    if norms.len() != len {
        return Err(Error::ColumnRows { row_count: len });
    }
    Ok(LazyProduct::Scaled { product: Box::new(product), norms })
}

/// The inner product of the directions of two operands, scaled by the norms of those that have any.
pub open spec fn factored<T>(
    lhs: TensorOperand<T>,
    rhs: TensorOperand<T>,
) -> LazyModel<T> {
    match (lhs, rhs) {
        (TensorOperand::Normalized(lhs), TensorOperand::Normalized(rhs)) => LazyModel::Scaled {
            product: Box::new(
                LazyModel::Scaled {
                    product: Box::new(
                        LazyModel::Dot { lhs: lhs.directions(), rhs: rhs.directions() },
                    ),
                    norms: lhs.scales(),
                },
            ),
            norms: rhs.scales(),
        },
        (TensorOperand::Normalized(normalized), TensorOperand::Plain(plain)) => {
            LazyModel::Scaled {
                product: Box::new(
                    LazyModel::Dot { lhs: normalized.directions(), rhs: plain@ },
                ),
                norms: normalized.scales(),
            }
        },
        (TensorOperand::Plain(plain), TensorOperand::Normalized(normalized)) => {
            LazyModel::Scaled {
                product: Box::new(
                    LazyModel::Dot { lhs: normalized.directions(), rhs: plain@ },
                ),
                norms: normalized.scales(),
            }
        },
        (TensorOperand::Plain(lhs), TensorOperand::Plain(rhs)) => LazyModel::Dot {
            lhs: lhs@,
            rhs: rhs@,
        },
    }
}

/// Why a lazy product is not put together: the innermost reason first.
pub open spec fn lazy_rejection<T: Arithmetic>(
    product: LazyModel<T>,
    len: nat,
) -> Option<ErrorModel>
    decreases product,
{
    match product {
        LazyModel::Dot { lhs, rhs } => dot_rejection::<T>(lhs, rhs, len),
        LazyModel::Scaled { product, norms } => if lazy_rejection::<T>(*product, len) is Some {
            lazy_rejection::<T>(*product, len)
        } else {
            scale_rejection::<T>(norms, len)
        },
    }
}

/// Whether `result` is what is made of two operands without decoding a coordinate: nothing where
/// neither is stored as directions and norms.
pub open spec fn reduction<T: Arithmetic>(
    lhs: TensorOperand<T>,
    rhs: TensorOperand<T>,
    result: Result<Option<LazyProduct<T>>, Error>,
) -> bool {
    if lhs is Plain && rhs is Plain {
        result matches Ok(None)
    } else {
        match result {
            Ok(Some(product)) => {
                &&& lazy_rejection::<T>(factored(lhs, rhs), lhs.rows()) is None
                &&& product.model() == factored(lhs, rhs)
            },
            Ok(None) => false,
            Err(error) => lazy_rejection::<T>(factored(lhs, rhs), lhs.rows()) == Some(error@),
        }
    }
}

/// Whether `result` can come of taking the inner product of two columns of tensors.
pub open spec fn dot_executed<T: Arithmetic>(
    lhs: ArrayModel<Vec<T>>,
    rhs: ArrayModel<Vec<T>>,
    result: Result<Array<T>, Error>,
) -> bool {
    exists|f: InnerProduct<T>| #[trigger]
        executed::<InnerProduct<T>>(&f, &(lhs, (rhs, ())), lhs.len(), result)
}

/// Whether `result` can come of multiplying two columns row by row.
pub open spec fn product_executed<T: Arithmetic>(
    lhs: ArrayModel<T>,
    rhs: ArrayModel<T>,
    result: Result<Array<T>, Error>,
) -> bool {
    exists|f: Product<T>| #[trigger]
        executed::<Product<T>>(&f, &(lhs, (rhs, ())), lhs.len(), result)
}

/// Whether `result` can come of scaling what came of computing a product.
pub open spec fn scale_executed<T: Arithmetic>(
    product: Result<Array<T>, Error>,
    norms: ArrayModel<T>,
    result: Result<Array<T>, Error>,
) -> bool {
    match product {
        Ok(unscaled) => product_executed::<T>(unscaled@, norms, result),
        Err(error) => result matches Err(cause) && cause@ == error@,
    }
}

/// Whether `result` can come of computing a lazy product.
pub open spec fn lazy_executed<T: Arithmetic>(
    product: LazyModel<T>,
    result: Result<Array<T>, Error>,
) -> bool
    decreases product,
{
    match product {
        LazyModel::Dot { lhs, rhs } => dot_executed::<T>(lhs, rhs, result),
        LazyModel::Scaled { product, norms } => exists|inner: Result<Array<T>, Error>|
            lazy_executed::<T>(*product, inner) && #[trigger] scale_executed(inner, norms, result),
    }
}

impl<'a, T: Arithmetic> LazyProduct<'a, T> {
    /// Compute the inner product, and scale it.
    pub fn execute(&self) -> (result: Result<Array<T>, Error>)
        ensures
            lazy_executed::<T>(self.model(), result),
        decreases self,
    {
        match self {
            LazyProduct::Dot { lhs, rhs } => {
                let f = InnerProduct::default();
                let args = (lhs.duplicate(), (rhs.duplicate(), ()));
                proof {
                    inner_product_claims::<T>();
                }
                let result = execute(&f, &args, lhs.len());
                assert(executed::<InnerProduct<T>>(&f, &(lhs@, (rhs@, ())), lhs@.len(), result));
                result
            },
            LazyProduct::Scaled { product, norms } => {
                let inner = (**product).execute();
                let ghost computed = inner;
                assert(lazy_executed::<T>((**product).model(), computed));
                let unscaled = match inner {
                    Ok(unscaled) => unscaled,
                    Err(error) => {
                        let result = Err(error);
                        assert(scale_executed(computed, norms@, result));
                        return result;
                    },
                };
                let f = Product::default();
                let len = unscaled.len();
                let ghost left = unscaled@;
                let args = (unscaled, (norms.duplicate(), ()));
                proof {
                    product_claims::<T>();
                }
                let result = execute(&f, &args, len);
                assert(executed::<Product<T>>(&f, &(left, (norms@, ())), left.len(), result));
                assert(scale_executed(computed, norms@, result));
                result
            },
        }
    }
}

impl<T: Arithmetic> InnerProduct<T> {
    /// The inner product of two operands, factored where they are stored as directions and norms.
    pub fn execute_operands(
        &self,
        lhs: &TensorOperand<'_, T>,
        rhs: &TensorOperand<'_, T>,
    ) -> (result: Result<Array<T>, Error>)
        ensures
            match lazy_rejection::<T>(factored(*lhs, *rhs), lhs.rows()) {
                Some(rejection) => result matches Err(error) && error@ == rejection,
                None => result is Ok && lazy_executed::<T>(factored(*lhs, *rhs), result),
            },
    {
        // Measuring an operand shows that what it is stored as is well formed.
        let _ = lhs.len();
        let _ = rhs.len();
        proof {
            reveal_with_fuel(lazy_wf, 4);
        }
        match self.reduce_encoded_operands(lhs, rhs) {
            Ok(Some(product)) => {
                let result = product.execute();
                proof {
                    lazy_products_succeed(factored(*lhs, *rhs), lhs.rows(), result);
                }
                result
            },
            Ok(None) => {
                let (left, right) = match (lhs, rhs) {
                    (TensorOperand::Plain(left), TensorOperand::Plain(right)) => (left, right),
                    _ => return Err(Error::NoTensor),
                };
                match self.try_new_array(left.len(), left, right) {
                    Ok(product) => {
                        let result = product.execute();
                        proof {
                            lazy_products_succeed(factored(*lhs, *rhs), lhs.rows(), result);
                        }
                        result
                    },
                    Err(error) => Err(error),
                }
            },
            Err(error) => Err(error),
        }
    }
}

/// The numbers that the elements of a row stand for.
pub open spec fn exact_row<T, N>(exact: spec_fn(T) -> N, row: Seq<T>) -> Seq<N> {
    row.map_values(|element: T| exact(element))
}

/// Whether arithmetic is exact over some numbers, be they the reals or others: its results stand
/// for the results of the numbers that its arguments stand for.
pub open spec fn exact_arithmetic<T: Arithmetic, N>(
    numbers: Numbers<N>,
    exact: spec_fn(T) -> N,
) -> bool {
    &&& forall|zero: T| #[trigger]
        call_ensures(T::nothing, (), zero) ==> exact(zero) == numbers.zero
    &&& forall|x: T, y: T, z: T| #[trigger]
        call_ensures(T::times, (x, y), z) ==> exact(z) == numbers.product(exact(x), exact(y))
    &&& forall|x: T, y: T, z: T| #[trigger]
        call_ensures(T::plus, (x, y), z) ==> exact(z) == numbers.sum(exact(x), exact(y))
}

/// Operations that are exact give the exact inner product.
pub proof fn exact_operations_give_the_exact_inner_product<T: Arithmetic, N>(
    numbers: Numbers<N>,
    exact: spec_fn(T) -> N,
    a: Seq<T>,
    b: Seq<T>,
    result: T,
)
    requires
        exact_arithmetic(numbers, exact),
        is_inner_product(a, b, result),
    ensures
        exact(result) == numbers.dot(exact_row(exact, a), exact_row(exact, b), pairs(a, b)),
{
    let n = pairs(a, b);
    let (products, sums) = choose|products: Seq<T>, sums: Seq<T>| #[trigger]
        adds_up(a, b, n, products, sums) && result == sums.last();
    lemma_partial_sums(numbers, exact, a, b, n, products, sums, n);
}

proof fn lemma_partial_sums<T: Arithmetic, N>(
    numbers: Numbers<N>,
    exact: spec_fn(T) -> N,
    a: Seq<T>,
    b: Seq<T>,
    n: nat,
    products: Seq<T>,
    sums: Seq<T>,
    k: nat,
)
    requires
        exact_arithmetic(numbers, exact),
        adds_up(a, b, n, products, sums),
        k <= n,
        n <= a.len(),
        n <= b.len(),
    ensures
        exact(sums[k as int]) == numbers.dot(exact_row(exact, a), exact_row(exact, b), k),
    decreases k,
{
    if k > 0 {
        lemma_partial_sums(numbers, exact, a, b, n, products, sums, (k - 1) as nat);
        assert(call_ensures(T::times, (a[k - 1], b[k - 1]), products[k - 1]));
        assert(call_ensures(T::plus, (sums[k - 1], products[k - 1]), sums[k - 1 + 1]));
    }
}

/// The numbers of row `i` of an operand, which a norm scales where there is one.
pub open spec fn operand_numbers<T, N>(
    numbers: Numbers<N>,
    exact: spec_fn(T) -> N,
    operand: TensorOperand<T>,
    i: int,
) -> Seq<N> {
    match operand {
        TensorOperand::Plain(array) => exact_row(exact, (array@.payload[i]->0)@),
        TensorOperand::Normalized(array) => numbers.scaled_by(
            exact_row(exact, (array.directions().payload[i]->0)@),
            exact(array.scales().payload[i]->0),
        ),
    }
}

/// The number that row `i` of a lazy product stands for.
pub open spec fn lazy_number<T, N>(
    numbers: Numbers<N>,
    exact: spec_fn(T) -> N,
    product: LazyModel<T>,
    i: int,
    n: nat,
) -> N
    decreases product,
{
    match product {
        LazyModel::Dot { lhs, rhs } => numbers.dot(
            exact_row(exact, (lhs.payload[i]->0)@),
            exact_row(exact, (rhs.payload[i]->0)@),
            n,
        ),
        LazyModel::Scaled { product, norms } => numbers.product(
            lazy_number(numbers, exact, *product, i, n),
            exact(norms.payload[i]->0),
        ),
    }
}

/// Factoring norms out of two operands keeps their inner product: in exact arithmetic, what is
/// computed over the directions and then scaled is the inner product of the scaled rows.
pub proof fn factoring_keeps_the_inner_product<T, N>(
    numbers: Numbers<N>,
    exact: spec_fn(T) -> N,
    lhs: TensorOperand<T>,
    rhs: TensorOperand<T>,
    i: int,
    n: nat,
)
    requires
        numbers.lawful(),
        n <= operand_numbers(numbers, exact, lhs, i).len(),
        n <= operand_numbers(numbers, exact, rhs, i).len(),
    ensures
        lazy_number(numbers, exact, factored(lhs, rhs), i, n) == numbers.dot(
            operand_numbers(numbers, exact, lhs, i),
            operand_numbers(numbers, exact, rhs, i),
            n,
        ),
{
    reveal_with_fuel(lazy_number, 4);
    match (lhs, rhs) {
        (TensorOperand::Normalized(left), TensorOperand::Normalized(right)) => {
            let x = exact_row(exact, (left.directions().payload[i]->0)@);
            let y = exact_row(exact, (right.directions().payload[i]->0)@);
            let s = exact(left.scales().payload[i]->0);
            let t = exact(right.scales().payload[i]->0);
            norms_factor_out(numbers, x, y, s, t, n);
        },
        (TensorOperand::Normalized(left), TensorOperand::Plain(right)) => {
            let x = exact_row(exact, (left.directions().payload[i]->0)@);
            let y = exact_row(exact, (right@.payload[i]->0)@);
            let s = exact(left.scales().payload[i]->0);
            norm_factors_out(numbers, x, y, s, n);
        },
        (TensorOperand::Plain(left), TensorOperand::Normalized(right)) => {
            let x = exact_row(exact, (right.directions().payload[i]->0)@);
            let y = exact_row(exact, (left@.payload[i]->0)@);
            let s = exact(right.scales().payload[i]->0);
            norm_factors_out(numbers, x, y, s, n);
            inner_product_is_symmetric(numbers, y, numbers.scaled_by(x, s), n);
        },
        (TensorOperand::Plain(_), TensorOperand::Plain(_)) => {},
    }
}

/// Whether row `i` of an operand is not null.
pub open spec fn operand_valid<T>(operand: TensorOperand<T>, i: int) -> bool {
    match operand {
        TensorOperand::Plain(array) => array@.valid[i],
        TensorOperand::Normalized(array) => array.directions().valid[i] && array.scales().valid[i],
    }
}

/// What the inner product of two columns comes to, row by row.
proof fn lemma_dot<T: Arithmetic>(
    lhs: ArrayModel<Vec<T>>,
    rhs: ArrayModel<Vec<T>>,
    array: Array<T>,
)
    requires
        lhs.wf(),
        rhs.wf(),
        dot_executed::<T>(lhs, rhs, Ok(array)),
    ensures
        array@.wf(),
        array@.len() == lhs.len() == rhs.len(),
        same_kind(array@.dtype, T::stored()),
        !T::stored().nullable(),
        array@.dtype.nullable() == (lhs.dtype.nullable() || rhs.dtype.nullable()),
        forall|i: int|
            0 <= i < lhs.len() ==> {
                &&& #[trigger] array@.valid[i] == (lhs.valid[i] && rhs.valid[i])
                &&& array@.valid[i] ==> is_inner_product(
                    (lhs.payload[i]->0)@,
                    (rhs.payload[i]->0)@,
                    array@.payload[i]->0,
                )
            },
{
    let f = choose|f: InnerProduct<T>| #[trigger]
        executed::<InnerProduct<T>>(&f, &(lhs, (rhs, ())), lhs.len(), Ok(array));
    let batch = (lhs, (rhs, ()));
    let dtype = T::stored();
    lifting_is_strict::<InnerProduct<T>>(&f, &batch, lhs.len(), dtype, array);
    let dtypes = <InnerProduct<T> as RowFn>::Args::dtypes(batch);
    assert(dtypes =~= seq![lhs.dtype, rhs.dtype]);
    assert(dtypes[0] == lhs.dtype && dtypes[1] == rhs.dtype);
    assert forall|i: int| 0 <= i < lhs.len() implies {
        &&& #[trigger] array@.valid[i] == (lhs.valid[i] && rhs.valid[i])
        &&& array@.valid[i] ==> is_inner_product(
            (lhs.payload[i]->0)@,
            (rhs.payload[i]->0)@,
            array@.payload[i]->0,
        )
    } by {
        if array@.valid[i] {
            assert(array@.payload[i] is Some);
        }
    }
}

/// What the product of two columns comes to, row by row.
proof fn lemma_product<T: Arithmetic>(lhs: ArrayModel<T>, rhs: ArrayModel<T>, array: Array<T>)
    requires
        lhs.wf(),
        rhs.wf(),
        product_executed::<T>(lhs, rhs, Ok(array)),
    ensures
        array@.wf(),
        array@.len() == lhs.len() == rhs.len(),
        same_kind(array@.dtype, T::stored()),
        !T::stored().nullable(),
        array@.dtype.nullable() == (lhs.dtype.nullable() || rhs.dtype.nullable()),
        forall|i: int|
            0 <= i < lhs.len() ==> {
                &&& #[trigger] array@.valid[i] == (lhs.valid[i] && rhs.valid[i])
                &&& array@.valid[i] ==> call_ensures(
                    T::times,
                    (lhs.payload[i]->0, rhs.payload[i]->0),
                    array@.payload[i]->0,
                )
            },
{
    let f = choose|f: Product<T>| #[trigger]
        executed::<Product<T>>(&f, &(lhs, (rhs, ())), lhs.len(), Ok(array));
    let batch = (lhs, (rhs, ()));
    let dtype = T::stored();
    lifting_is_strict::<Product<T>>(&f, &batch, lhs.len(), dtype, array);
    let dtypes = <Product<T> as RowFn>::Args::dtypes(batch);
    assert(dtypes =~= seq![lhs.dtype, rhs.dtype]);
    assert(dtypes[0] == lhs.dtype && dtypes[1] == rhs.dtype);
    assert forall|i: int| 0 <= i < lhs.len() implies {
        &&& #[trigger] array@.valid[i] == (lhs.valid[i] && rhs.valid[i])
        &&& array@.valid[i] ==> call_ensures(
            T::times,
            (lhs.payload[i]->0, rhs.payload[i]->0),
            array@.payload[i]->0,
        )
    } by {
        if array@.valid[i] {
            assert(array@.payload[i] is Some);
        }
    }
}

/// Whether what a lazy product is computed from is well formed.
pub open spec fn lazy_wf<T>(product: LazyModel<T>) -> bool
    decreases product,
{
    match product {
        LazyModel::Dot { lhs, rhs } => lhs.wf() && rhs.wf(),
        LazyModel::Scaled { product, norms } => lazy_wf(*product) && norms.wf(),
    }
}

/// Whether row `i` of a lazy product is not null.
pub open spec fn lazy_valid<T>(product: LazyModel<T>, i: int) -> bool
    decreases product,
{
    match product {
        LazyModel::Dot { lhs, rhs } => lhs.valid[i] && rhs.valid[i],
        LazyModel::Scaled { product, norms } => lazy_valid(*product, i) && norms.valid[i],
    }
}

/// The number of pairs that row `i` of a lazy product adds up.
pub open spec fn lazy_width<T>(product: LazyModel<T>, i: int) -> nat
    decreases product,
{
    match product {
        LazyModel::Dot { lhs, rhs } => pairs((lhs.payload[i]->0)@, (rhs.payload[i]->0)@),
        LazyModel::Scaled { product, .. } => lazy_width(*product, i),
    }
}

/// What a lazy product comes to, row by row: where its operands and norms are not null, the number
/// that it stands for.
proof fn lemma_lazy_rows<T: Arithmetic, N>(
    numbers: Numbers<N>,
    exact: spec_fn(T) -> N,
    product: LazyModel<T>,
    array: Array<T>,
)
    requires
        exact_arithmetic(numbers, exact),
        lazy_wf(product),
        lazy_executed::<T>(product, Ok(array)),
    ensures
        array@.wf(),
        array@.len() == product.len(),
        forall|i: int|
            0 <= i < product.len() ==> {
                &&& #[trigger] array@.valid[i] == lazy_valid(product, i)
                &&& array@.valid[i] ==> exact(array@.payload[i]->0) == lazy_number(
                    numbers,
                    exact,
                    product,
                    i,
                    lazy_width(product, i),
                )
            },
    decreases product,
{
    match product {
        LazyModel::Dot { lhs, rhs } => {
            lemma_dot(lhs, rhs, array);
            assert forall|i: int| 0 <= i < product.len() implies {
                &&& #[trigger] array@.valid[i] == lazy_valid(product, i)
                &&& array@.valid[i] ==> exact(array@.payload[i]->0) == lazy_number(
                    numbers,
                    exact,
                    product,
                    i,
                    lazy_width(product, i),
                )
            } by {
                if array@.valid[i] {
                    exact_operations_give_the_exact_inner_product(
                        numbers,
                        exact,
                        (lhs.payload[i]->0)@,
                        (rhs.payload[i]->0)@,
                        array@.payload[i]->0,
                    );
                }
            }
        },
        LazyModel::Scaled { product: inner, norms } => {
            let computed = choose|computed: Result<Array<T>, Error>|
                lazy_executed::<T>(*inner, computed) && #[trigger] scale_executed(
                    computed,
                    norms,
                    Ok(array),
                );
            let unscaled = computed->Ok_0;
            lemma_lazy_rows(numbers, exact, *inner, unscaled);
            lemma_product(unscaled@, norms, array);
            assert forall|i: int| 0 <= i < product.len() implies {
                &&& #[trigger] array@.valid[i] == lazy_valid(product, i)
                &&& array@.valid[i] ==> exact(array@.payload[i]->0) == lazy_number(
                    numbers,
                    exact,
                    product,
                    i,
                    lazy_width(product, i),
                )
            } by {
                assert(unscaled@.valid[i] == lazy_valid(*inner, i));
            }
        },
    }
}

/// How operands are stored does not show in their inner product: in arithmetic that is exact over
/// the reals, or over other lawful numbers, every row is the inner product of the tensors that the
/// operands stand for, and null where either is.
pub proof fn operands_give_their_inner_product<T: Arithmetic, N>(
    numbers: Numbers<N>,
    exact: spec_fn(T) -> N,
    lhs: TensorOperand<T>,
    rhs: TensorOperand<T>,
    array: Array<T>,
)
    requires
        numbers.lawful(),
        exact_arithmetic(numbers, exact),
        lhs.wf(),
        rhs.wf(),
        lazy_executed::<T>(factored(lhs, rhs), Ok(array)),
    ensures
        array@.wf(),
        forall|i: int|
            0 <= i < array@.len() ==> {
                &&& #[trigger] array@.valid[i] == (operand_valid(lhs, i) && operand_valid(rhs, i))
                &&& array@.valid[i] ==> exact(array@.payload[i]->0) == numbers.dot(
                    operand_numbers(numbers, exact, lhs, i),
                    operand_numbers(numbers, exact, rhs, i),
                    pairs(
                        operand_numbers(numbers, exact, lhs, i),
                        operand_numbers(numbers, exact, rhs, i),
                    ),
                )
            },
{
    reveal_with_fuel(lazy_wf, 4);
    reveal_with_fuel(lazy_valid, 4);
    reveal_with_fuel(lazy_width, 4);
    reveal_with_fuel(LazyModel::len, 4);
    let product = factored(lhs, rhs);
    lemma_lazy_rows(numbers, exact, product, array);
    assert forall|i: int| 0 <= i < array@.len() implies {
        &&& #[trigger] array@.valid[i] == (operand_valid(lhs, i) && operand_valid(rhs, i))
        &&& array@.valid[i] ==> exact(array@.payload[i]->0) == numbers.dot(
            operand_numbers(numbers, exact, lhs, i),
            operand_numbers(numbers, exact, rhs, i),
            pairs(operand_numbers(numbers, exact, lhs, i), operand_numbers(numbers, exact, rhs, i)),
        )
    } by {
        let n = pairs(
            operand_numbers(numbers, exact, lhs, i),
            operand_numbers(numbers, exact, rhs, i),
        );
        assert(lazy_width(product, i) == n);
        factoring_keeps_the_inner_product(numbers, exact, lhs, rhs, i, n);
    }
}

/// The inner product cannot fail on legal operands, and runs every row of a batch with nulls.
pub proof fn inner_product_claims<T: Arithmetic>()
    ensures
        !<InnerProduct<T> as RowFn>::FALLIBLE,
        coherent::<InnerProduct<T>>(),
        policy::<InnerProduct<T>>() == RowPolicy::Dense,
{
    outcome_claims();
    tensor_row_claims::<T>();
    no_argument_claims();
    argument_claims::<TensorRow<T>, ()>();
    argument_claims::<TensorRow<T>, (TensorRow<T>, ())>();
}

/// The rowwise product cannot fail on legal operands, and runs every row of a batch with nulls.
pub proof fn product_claims<T: Arithmetic>()
    ensures
        !<Product<T> as RowFn>::FALLIBLE,
        coherent::<Product<T>>(),
        policy::<Product<T>>() == RowPolicy::Dense,
{
    outcome_claims();
    native_claims::<T>();
    no_argument_claims();
    argument_claims::<T, ()>();
    argument_claims::<T, (T, ())>();
}

/// Columns that an inner product takes have one.
proof fn lemma_dot_succeeds<T: Arithmetic>(
    lhs: ArrayModel<Vec<T>>,
    rhs: ArrayModel<Vec<T>>,
    result: Result<Array<T>, Error>,
)
    requires
        lhs.wf(),
        rhs.wf(),
        dot_rejection::<T>(lhs, rhs, lhs.len()) is None,
        dot_executed::<T>(lhs, rhs, result),
    ensures
        result is Ok,
{
    let f = choose|f: InnerProduct<T>| #[trigger]
        executed::<InnerProduct<T>>(&f, &(lhs, (rhs, ())), lhs.len(), result);
    let batch = (lhs, (rhs, ()));
    let dtypes = <InnerProduct<T> as RowFn>::Args::dtypes(batch);
    assert(dtypes =~= seq![lhs.dtype, rhs.dtype]);
    let valid = validity::<(TensorRow<T>, (TensorRow<T>, ()))>(batch, lhs.len());
    <(TensorRow<T>, (TensorRow<T>, ())) as ElementTuple>::lemma_filter(batch, valid);
    inner_product_claims::<T>();
    infallible_functions_succeed::<InnerProduct<T>>(&f, &batch, lhs.len(), T::stored(), result);
}

/// Columns of `T`s that have as many rows as each other have a product.
proof fn lemma_product_succeeds<T: Arithmetic>(
    lhs: ArrayModel<T>,
    rhs: ArrayModel<T>,
    result: Result<Array<T>, Error>,
)
    requires
        lhs.wf(),
        rhs.wf(),
        lhs.len() == rhs.len(),
        !T::stored().nullable(),
        <T as InputElement>::rejection(lhs.dtype) is None,
        <T as InputElement>::rejection(rhs.dtype) is None,
        product_executed::<T>(lhs, rhs, result),
    ensures
        result is Ok,
{
    let f = choose|f: Product<T>| #[trigger]
        executed::<Product<T>>(&f, &(lhs, (rhs, ())), lhs.len(), result);
    let batch = (lhs, (rhs, ()));
    let dtypes = <Product<T> as RowFn>::Args::dtypes(batch);
    assert(dtypes =~= seq![lhs.dtype, rhs.dtype]);
    assert(dtypes.skip(1) =~= seq![rhs.dtype]);
    let valid = validity::<(T, (T, ()))>(batch, lhs.len());
    <(T, (T, ())) as ElementTuple>::lemma_filter(batch, valid);
    product_claims::<T>();
    infallible_functions_succeed::<Product<T>>(&f, &batch, lhs.len(), T::stored(), result);
}

/// A lazy product that is put together can be computed.
pub proof fn lazy_products_succeed<T: Arithmetic>(
    product: LazyModel<T>,
    len: nat,
    result: Result<Array<T>, Error>,
)
    requires
        lazy_wf(product),
        lazy_rejection::<T>(product, len) is None,
        lazy_executed::<T>(product, result),
    ensures
        result matches Ok(array) && array@.wf() && array@.len() == len && same_kind(
            array@.dtype,
            T::stored(),
        ),
    decreases product,
{
    match product {
        LazyModel::Dot { lhs, rhs } => {
            lemma_dot_succeeds(lhs, rhs, result);
            lemma_dot(lhs, rhs, result->Ok_0);
        },
        LazyModel::Scaled { product: inner, norms } => {
            let computed = choose|computed: Result<Array<T>, Error>|
                lazy_executed::<T>(*inner, computed) && #[trigger] scale_executed(
                    computed,
                    norms,
                    result,
                );
            lazy_products_succeed(*inner, len, computed);
            lemma_plain_storage::<T>(*inner, len);
            let unscaled = computed->Ok_0;
            lemma_product_succeeds(unscaled@, norms, result);
            lemma_product(unscaled@, norms, result->Ok_0);
        },
    }
}

/// Only values that are stored without nulls are multiplied.
proof fn lemma_plain_storage<T: Arithmetic>(product: LazyModel<T>, len: nat)
    requires
        lazy_rejection::<T>(product, len) is None,
    ensures
        !T::stored().nullable(),
        T::stored().with_nullability(Nullability::NonNullable) == T::stored(),
    decreases product,
{
    match product {
        LazyModel::Dot { lhs, rhs } => {},
        LazyModel::Scaled { product: inner, norms } => {
            lemma_plain_storage::<T>(*inner, len);
        },
    }
}

/// Whether a product does not depend on the order of its factors.
pub open spec fn factors_commute<T: Arithmetic>() -> bool {
    forall|x: T, y: T, z: T| #[trigger]
        call_ensures(T::times, (x, y), z) ==> call_ensures(T::times, (y, x), z)
}

/// The rows of an inner product may trade places where factors may.
pub proof fn rows_may_trade_places<T: Arithmetic>(a: Seq<T>, b: Seq<T>, result: T)
    requires
        factors_commute::<T>(),
    ensures
        is_inner_product(a, b, result) <==> is_inner_product(b, a, result),
{
    if is_inner_product(a, b, result) {
        lemma_rows_trade_places(a, b, result);
    }
    if is_inner_product(b, a, result) {
        lemma_rows_trade_places(b, a, result);
    }
}

proof fn lemma_rows_trade_places<T: Arithmetic>(a: Seq<T>, b: Seq<T>, result: T)
    requires
        factors_commute::<T>(),
        is_inner_product(a, b, result),
    ensures
        is_inner_product(b, a, result),
{
    let n = pairs(a, b);
    let (products, sums) = choose|products: Seq<T>, sums: Seq<T>| #[trigger]
        adds_up(a, b, n, products, sums) && result == sums.last();
    assert forall|k: int| 0 <= k < n implies {
        &&& call_ensures(T::times, (b[k], a[k]), #[trigger] products[k])
        &&& call_ensures(T::plus, (sums[k], products[k]), sums[k + 1])
    } by {
        assert(call_ensures(T::times, (a[k], b[k]), products[k]));
    }
    assert(adds_up(b, a, pairs(b, a), products, sums));
}

/// Whether arithmetic gives one result for the same arguments.
pub open spec fn deterministic<T: Arithmetic>() -> bool {
    &&& forall|x: T, y: T| #[trigger]
        call_ensures(T::nothing, (), x) && #[trigger] call_ensures(T::nothing, (), y) ==> x == y
    &&& forall|x: T, y: T, z: T, w: T| #[trigger]
        call_ensures(T::times, (x, y), z) && #[trigger] call_ensures(T::times, (x, y), w) ==> z == w
    &&& forall|x: T, y: T, z: T, w: T| #[trigger]
        call_ensures(T::plus, (x, y), z) && #[trigger] call_ensures(T::plus, (x, y), w) ==> z == w
}

/// Two rows have one inner product, whichever of them comes first, where arithmetic gives one
/// result and factors may trade places.
pub proof fn inner_product_row_is_symmetric<T: Arithmetic>(
    a: Seq<T>,
    b: Seq<T>,
    ahead: T,
    back: T,
)
    requires
        deterministic::<T>(),
        factors_commute::<T>(),
        is_inner_product(a, b, ahead),
        is_inner_product(b, a, back),
    ensures
        ahead == back,
{
    rows_may_trade_places(a, b, back);
    let n = pairs(a, b);
    let (products, sums) = choose|products: Seq<T>, sums: Seq<T>| #[trigger]
        adds_up(a, b, n, products, sums) && ahead == sums.last();
    let (others, other_sums) = choose|products: Seq<T>, sums: Seq<T>| #[trigger]
        adds_up(a, b, n, products, sums) && back == sums.last();
    lemma_same_sums(a, b, n, products, sums, others, other_sums, n);
}

proof fn lemma_same_sums<T: Arithmetic>(
    a: Seq<T>,
    b: Seq<T>,
    n: nat,
    products: Seq<T>,
    sums: Seq<T>,
    others: Seq<T>,
    other_sums: Seq<T>,
    k: nat,
)
    requires
        deterministic::<T>(),
        adds_up(a, b, n, products, sums),
        adds_up(a, b, n, others, other_sums),
        k <= n,
    ensures
        sums[k as int] == other_sums[k as int],
    decreases k,
{
    if k > 0 {
        lemma_same_sums(a, b, n, products, sums, others, other_sums, (k - 1) as nat);
        let j = k - 1;
        assert(call_ensures(T::times, (a[j], b[j]), products[j]));
        assert(call_ensures(T::times, (a[j], b[j]), others[j]));
        assert(call_ensures(T::plus, (sums[j], products[j]), sums[j + 1]));
        assert(call_ensures(T::plus, (other_sums[j], others[j]), other_sums[j + 1]));
    }
}

/// Whether the columns that a lazy product multiplies have `len` rows.
pub open spec fn lazy_has_rows<T>(product: LazyModel<T>, len: nat) -> bool
    decreases product,
{
    match product {
        LazyModel::Dot { lhs, rhs } => lhs.len() == len && rhs.len() == len,
        LazyModel::Scaled { product, .. } => lazy_has_rows(*product, len),
    }
}

/// Whether a lazy product may be null: it may where a column that it is computed from may.
spec fn lazy_nullable<T>(product: LazyModel<T>) -> bool
    decreases product,
{
    match product {
        LazyModel::Dot { lhs, rhs } => lhs.dtype.nullable() || rhs.dtype.nullable(),
        LazyModel::Scaled { product, norms } => lazy_nullable(*product) || norms.dtype.nullable(),
    }
}

/// Which rows of a lazy product are null, whatever the arithmetic.
proof fn lemma_lazy_valid<T: Arithmetic>(product: LazyModel<T>, array: Array<T>)
    requires
        lazy_wf(product),
        lazy_executed::<T>(product, Ok(array)),
    ensures
        array@.wf(),
        array@.len() == product.len(),
        lazy_has_rows(product, array@.len()),
        array@.dtype.nullable() == lazy_nullable(product),
        forall|i: int|
            0 <= i < product.len() ==> #[trigger] array@.valid[i] == lazy_valid(product, i),
    decreases product,
{
    match product {
        LazyModel::Dot { lhs, rhs } => {
            lemma_dot(lhs, rhs, array);
        },
        LazyModel::Scaled { product: inner, norms } => {
            let computed = choose|computed: Result<Array<T>, Error>|
                lazy_executed::<T>(*inner, computed) && #[trigger] scale_executed(
                    computed,
                    norms,
                    Ok(array),
                );
            let unscaled = computed->Ok_0;
            lemma_lazy_valid(*inner, unscaled);
            lemma_product(unscaled@, norms, array);
            assert forall|i: int| 0 <= i < product.len() implies #[trigger] array@.valid[i]
                == lazy_valid(product, i) by {
                assert(unscaled@.valid[i] == lazy_valid(*inner, i));
            }
        },
    }
}

/// The inner product of two operands is null exactly where either is, a null norm included,
/// whatever the arithmetic.
pub proof fn inner_product_is_null_where_an_operand_is<T: Arithmetic>(
    lhs: TensorOperand<T>,
    rhs: TensorOperand<T>,
    array: Array<T>,
)
    requires
        lhs.wf(),
        rhs.wf(),
        lazy_executed::<T>(factored(lhs, rhs), Ok(array)),
    ensures
        array@.len() == lhs.rows(),
        forall|i: int|
            0 <= i < array@.len() ==> #[trigger] array@.valid[i] == (operand_valid(lhs, i)
                && operand_valid(rhs, i)),
{
    reveal_with_fuel(lazy_wf, 4);
    reveal_with_fuel(lazy_valid, 4);
    reveal_with_fuel(lazy_has_rows, 4);
    reveal_with_fuel(LazyModel::len, 4);
    lemma_lazy_valid(factored(lhs, rhs), array);
}

/// What is made of operands without decoding a coordinate is their inner product: in arithmetic
/// that is exact over the reals, or over other lawful numbers, row `i` is the inner product of the
/// two directions, multiplied once by each norm that there is, and that of the tensors that the
/// operands stand for. A row whose norm is null is null.
pub proof fn reduced_products_use_each_norm_once<T: Arithmetic, N>(
    numbers: Numbers<N>,
    exact: spec_fn(T) -> N,
    lhs: TensorOperand<T>,
    rhs: TensorOperand<T>,
    product: LazyProduct<T>,
    array: Array<T>,
    i: int,
)
    requires
        numbers.lawful(),
        exact_arithmetic(numbers, exact),
        lhs.wf(),
        rhs.wf(),
        reduction(lhs, rhs, Ok(Some(product))),
        lazy_executed::<T>(product.model(), Ok(array)),
        0 <= i < array@.len(),
    ensures
        array@.valid[i] == (operand_valid(lhs, i) && operand_valid(rhs, i)),
        array@.valid[i] ==> match (lhs, rhs) {
            (TensorOperand::Normalized(left), TensorOperand::Normalized(right)) => {
                let x = (left.directions().payload[i]->0)@;
                let y = (right.directions().payload[i]->0)@;
                exact(array@.payload[i]->0) == numbers.product(
                    numbers.product(
                        numbers.dot(exact_row(exact, x), exact_row(exact, y), pairs(x, y)),
                        exact(left.scales().payload[i]->0),
                    ),
                    exact(right.scales().payload[i]->0),
                )
            },
            (TensorOperand::Normalized(normalized), TensorOperand::Plain(plain)) => {
                let x = (normalized.directions().payload[i]->0)@;
                let y = (plain@.payload[i]->0)@;
                exact(array@.payload[i]->0) == numbers.product(
                    numbers.dot(exact_row(exact, x), exact_row(exact, y), pairs(x, y)),
                    exact(normalized.scales().payload[i]->0),
                )
            },
            (TensorOperand::Plain(plain), TensorOperand::Normalized(normalized)) => {
                let x = (plain@.payload[i]->0)@;
                let y = (normalized.directions().payload[i]->0)@;
                exact(array@.payload[i]->0) == numbers.product(
                    numbers.dot(exact_row(exact, x), exact_row(exact, y), pairs(x, y)),
                    exact(normalized.scales().payload[i]->0),
                )
            },
            (TensorOperand::Plain(_), TensorOperand::Plain(_)) => false,
        },
        array@.valid[i] ==> exact(array@.payload[i]->0) == numbers.dot(
            operand_numbers(numbers, exact, lhs, i),
            operand_numbers(numbers, exact, rhs, i),
            pairs(
                operand_numbers(numbers, exact, lhs, i),
                operand_numbers(numbers, exact, rhs, i),
            ),
        ),
{
    reveal_with_fuel(lazy_wf, 4);
    reveal_with_fuel(lazy_valid, 4);
    reveal_with_fuel(lazy_width, 4);
    reveal_with_fuel(lazy_number, 4);
    reveal_with_fuel(LazyModel::len, 4);
    inner_product_is_null_where_an_operand_is(lhs, rhs, array);
    lemma_lazy_rows(numbers, exact, factored(lhs, rhs), array);
    operands_give_their_inner_product(numbers, exact, lhs, rhs, array);
    if let (TensorOperand::Plain(plain), TensorOperand::Normalized(normalized)) = (lhs, rhs) {
        let x = (plain@.payload[i]->0)@;
        let y = (normalized.directions().payload[i]->0)@;
        inner_product_is_symmetric(
            numbers,
            exact_row(exact, x),
            exact_row(exact, y),
            pairs(x, y),
        );
    }
}

/// The inner product of two rows adds up one product for every pair that they have: as many as the
/// shorter of them has elements, and for rows of one length just that many. The products are those
/// of the elements at the same place, and they are added up in order, from nothing.
pub proof fn inner_products_add_up_every_pair<T: Arithmetic>(
    a: &[T],
    b: &[T],
    result: T,
) -> (terms: (Seq<T>, Seq<T>))
    requires
        call_ensures(inner_product_row::<T>, (a, b), result),
    ensures
        terms.0.len() <= a@.len(),
        terms.0.len() <= b@.len(),
        terms.0.len() == a@.len() || terms.0.len() == b@.len(),
        a@.len() == b@.len() ==> terms.0.len() == a@.len(),
        terms.1.len() == terms.0.len() + 1,
        call_ensures(T::nothing, (), terms.1[0]),
        forall|k: int|
            0 <= k < terms.0.len() ==> {
                &&& call_ensures(T::times, (a@[k], b@[k]), #[trigger] terms.0[k])
                &&& call_ensures(T::plus, (terms.1[k], terms.0[k]), terms.1[k + 1])
            },
        result == terms.1[terms.0.len() as int],
{
    lemma_every_pair_adds_up(a@, b@, result)
}

/// What an inner product is of, in the lengths of its rows.
proof fn lemma_every_pair_adds_up<T: Arithmetic>(a: Seq<T>, b: Seq<T>, result: T) -> (terms: (
    Seq<T>,
    Seq<T>,
))
    requires
        is_inner_product(a, b, result),
    ensures
        terms.0.len() <= a.len(),
        terms.0.len() <= b.len(),
        terms.0.len() == a.len() || terms.0.len() == b.len(),
        a.len() == b.len() ==> terms.0.len() == a.len(),
        terms.1.len() == terms.0.len() + 1,
        call_ensures(T::nothing, (), terms.1[0]),
        forall|k: int|
            0 <= k < terms.0.len() ==> {
                &&& call_ensures(T::times, (a[k], b[k]), #[trigger] terms.0[k])
                &&& call_ensures(T::plus, (terms.1[k], terms.0[k]), terms.1[k + 1])
            },
        result == terms.1[terms.0.len() as int],
{
    let (products, sums) = choose|products: Seq<T>, sums: Seq<T>| #[trigger]
        adds_up(a, b, pairs(a, b), products, sums) && result == sums.last();
    (products, sums)
}

/// A row that is an inner product is one of every pair, wherever it is stated.
pub proof fn stated_inner_products_add_up_every_pair<T: Arithmetic>(
    a: Seq<T>,
    b: Seq<T>,
    result: T,
) -> (terms: (Seq<T>, Seq<T>))
    requires
        is_inner_product(a, b, result),
        a.len() == b.len(),
    ensures
        terms.0.len() == a.len(),
        terms.1.len() == a.len() + 1,
        call_ensures(T::nothing, (), terms.1[0]),
        forall|k: int|
            0 <= k < a.len() ==> {
                &&& call_ensures(T::times, (a[k], b[k]), #[trigger] terms.0[k])
                &&& call_ensures(T::plus, (terms.1[k], terms.0[k]), terms.1[k + 1])
            },
        result == terms.1[a.len() as int],
{
    lemma_every_pair_adds_up(a, b, result)
}

/// In exact arithmetic the inner product of two rows of one length is that of all their elements.
pub proof fn exact_inner_products_are_of_all_elements<T: Arithmetic, N>(
    numbers: Numbers<N>,
    exact: spec_fn(T) -> N,
    a: &[T],
    b: &[T],
    result: T,
)
    requires
        exact_arithmetic(numbers, exact),
        a@.len() == b@.len(),
        call_ensures(inner_product_row::<T>, (a, b), result),
    ensures
        exact(result) == numbers.dot(
            Seq::new(a@.len(), |k: int| exact(a@[k])),
            Seq::new(b@.len(), |k: int| exact(b@[k])),
            a@.len(),
        ),
{
    exact_operations_give_the_exact_inner_product(numbers, exact, a@, b@, result);
    assert(exact_row(exact, a@) =~= Seq::new(a@.len(), |k: int| exact(a@[k])));
    assert(exact_row(exact, b@) =~= Seq::new(b@.len(), |k: int| exact(b@[k])));
}

/// The inner product of two columns, row by row: null exactly where a column is null, a null norm
/// included, and otherwise, in exact arithmetic, the inner product of all the elements of the two
/// rows. An operand that is stored as directions and norms is multiplied by the norm of the row,
/// and by no other, once. The type is nullable exactly where that of a column is.
pub proof fn operands_are_multiplied_row_by_row<T: Arithmetic, N>(
    numbers: Numbers<N>,
    exact: spec_fn(T) -> N,
    f: InnerProduct<T>,
    lhs: TensorOperand<T>,
    rhs: TensorOperand<T>,
    array: Array<T>,
    i: int,
)
    requires
        numbers.lawful(),
        exact_arithmetic(numbers, exact),
        lhs.wf(),
        rhs.wf(),
        call_ensures(
            InnerProduct::<T>::execute_operands,
            (&f, &lhs, &rhs),
            Ok::<Array<T>, Error>(array),
        ),
    ensures
        match lhs {
            TensorOperand::Plain(left) => array@.len() == left@.len(),
            TensorOperand::Normalized(left) => array@.len() == left.directions().len(),
        },
        match rhs {
            TensorOperand::Plain(right) => array@.len() == right@.len(),
            TensorOperand::Normalized(right) => array@.len() == right.directions().len(),
        },
        array@.dtype.with_nullability(Nullability::NonNullable) == T::stored().with_nullability(
            Nullability::NonNullable,
        ),
        array@.dtype.nullability() == Nullability::Nullable <==> (match lhs {
            TensorOperand::Plain(left) => left@.dtype.nullability() == Nullability::Nullable,
            TensorOperand::Normalized(left) => left.directions().dtype.nullability()
                == Nullability::Nullable || left.scales().dtype.nullability()
                == Nullability::Nullable,
        }) || (match rhs {
            TensorOperand::Plain(right) => right@.dtype.nullability() == Nullability::Nullable,
            TensorOperand::Normalized(right) => right.directions().dtype.nullability()
                == Nullability::Nullable || right.scales().dtype.nullability()
                == Nullability::Nullable,
        }),
        0 <= i < array@.len() ==> (array@.valid[i] <==> (match lhs {
            TensorOperand::Plain(left) => left@.valid[i],
            TensorOperand::Normalized(left) => left.directions().valid[i]
                && left.scales().valid[i],
        }) && (match rhs {
            TensorOperand::Plain(right) => right@.valid[i],
            TensorOperand::Normalized(right) => right.directions().valid[i]
                && right.scales().valid[i],
        })),
        0 <= i < array@.len() && array@.valid[i] ==> {
            let x = match lhs {
                TensorOperand::Plain(left) => (left@.payload[i]->0)@,
                TensorOperand::Normalized(left) => (left.directions().payload[i]->0)@,
            };
            let y = match rhs {
                TensorOperand::Plain(right) => (right@.payload[i]->0)@,
                TensorOperand::Normalized(right) => (right.directions().payload[i]->0)@,
            };
            let dot = numbers.dot(
                Seq::new(x.len(), |k: int| exact(x[k])),
                Seq::new(y.len(), |k: int| exact(y[k])),
                x.len(),
            );
            x.len() == y.len() ==> exact(array@.payload[i]->0) == match (lhs, rhs) {
                (TensorOperand::Plain(_), TensorOperand::Plain(_)) => dot,
                (TensorOperand::Normalized(left), TensorOperand::Plain(_)) => (numbers.times)(
                    dot,
                    exact(left.scales().payload[i]->0),
                ),
                (TensorOperand::Plain(_), TensorOperand::Normalized(right)) => (numbers.times)(
                    dot,
                    exact(right.scales().payload[i]->0),
                ),
                (TensorOperand::Normalized(left), TensorOperand::Normalized(right)) => {
                    (numbers.times)(
                        (numbers.times)(dot, exact(left.scales().payload[i]->0)),
                        exact(right.scales().payload[i]->0),
                    )
                },
            }
        },
{
    reveal_with_fuel(lazy_wf, 4);
    reveal_with_fuel(lazy_valid, 4);
    reveal_with_fuel(lazy_width, 4);
    reveal_with_fuel(lazy_number, 4);
    reveal_with_fuel(lazy_has_rows, 4);
    reveal_with_fuel(lazy_nullable, 4);
    reveal_with_fuel(LazyModel::len, 4);
    let product = factored(lhs, rhs);
    lazy_products_succeed(product, lhs.rows(), Ok(array));
    lemma_lazy_valid(product, array);
    lemma_lazy_rows(numbers, exact, product, array);
    let x = match lhs {
        TensorOperand::Plain(left) => (left@.payload[i]->0)@,
        TensorOperand::Normalized(left) => (left.directions().payload[i]->0)@,
    };
    let y = match rhs {
        TensorOperand::Plain(right) => (right@.payload[i]->0)@,
        TensorOperand::Normalized(right) => (right.directions().payload[i]->0)@,
    };
    assert(exact_row(exact, x) =~= Seq::new(x.len(), |k: int| exact(x[k])));
    assert(exact_row(exact, y) =~= Seq::new(y.len(), |k: int| exact(y[k])));
    inner_product_is_symmetric(numbers, exact_row(exact, x), exact_row(exact, y), x.len());
}

/// What the functions say of themselves: their names, and the names of their two arguments.
pub proof fn products_name_themselves_and_their_arguments<T: Arithmetic>(
    f: InnerProduct<T>,
    g: Product<T>,
    id: String,
    product_id: String,
    first: String,
    second: String,
    product_first: String,
    product_second: String,
)
    requires
        call_ensures(<InnerProduct<T> as RowFn>::id, (&f,), id),
        call_ensures(<Product<T> as RowFn>::id, (&g,), product_id),
        call_ensures(<InnerProduct<T> as RowFn>::arg_name, (&f, 0usize), first),
        call_ensures(<InnerProduct<T> as RowFn>::arg_name, (&f, 1usize), second),
        call_ensures(<Product<T> as RowFn>::arg_name, (&g, 0usize), product_first),
        call_ensures(<Product<T> as RowFn>::arg_name, (&g, 1usize), product_second),
    ensures
        id@ == "vortex.tensor.inner_product"@,
        product_id@ == "vortex.mul"@,
        first@ == "lhs"@,
        second@ == "rhs"@,
        product_first@ == "lhs"@,
        product_second@ == "rhs"@,
{
}

/// Two operands have an inner product exactly where their columns of tensors are of one type but
/// for its nullability, the elements are floats of the width that is computed with, and the norms
/// that there are hold numbers of that width, each column with as many rows as the others. Whether
/// a column may hold nulls does not matter.
pub proof fn operands_of_one_width_are_multiplied<T: Arithmetic>(
    f: InnerProduct<T>,
    lhs: TensorOperand<T>,
    rhs: TensorOperand<T>,
    result: Result<Array<T>, Error>,
)
    requires
        lhs.wf(),
        rhs.wf(),
        T::stored().nullability() == Nullability::NonNullable,
        call_ensures(InnerProduct::<T>::execute_operands, (&f, &lhs, &rhs), result),
    ensures
        result is Ok <==> {
            let left = match lhs {
                TensorOperand::Plain(array) => array@,
                TensorOperand::Normalized(array) => array.directions(),
            };
            let right = match rhs {
                TensorOperand::Plain(array) => array@,
                TensorOperand::Normalized(array) => array.directions(),
            };
            let kind = left.dtype.with_nullability(Nullability::NonNullable);
            &&& kind == right.dtype.with_nullability(Nullability::NonNullable)
            &&& match kind {
                DTypeModel::Extension(ExtModel::Vector { element, .. }) => {
                    &&& element == PType::F16 || element == PType::F32 || element == PType::F64
                    &&& T::stored() == DTypeModel::Primitive(element, Nullability::NonNullable)
                },
                DTypeModel::Extension(ExtModel::FixedShapeTensor { element, .. }) => {
                    &&& element == PType::F16 || element == PType::F32 || element == PType::F64
                    &&& T::stored() == DTypeModel::Primitive(element, Nullability::NonNullable)
                },
                _ => false,
            }
            &&& left.len() == right.len()
            &&& lhs matches TensorOperand::Normalized(array)
                ==> array.scales().dtype.with_nullability(Nullability::NonNullable) == T::stored()
            &&& rhs matches TensorOperand::Normalized(array)
                ==> array.scales().dtype.with_nullability(Nullability::NonNullable) == T::stored()
        },
{
    reveal_with_fuel(lazy_rejection, 4);
    reveal_with_fuel(tensor_rejection_from, 3);
    let left = match lhs {
        TensorOperand::Plain(array) => array@,
        TensorOperand::Normalized(array) => array.directions(),
    };
    let right = match rhs {
        TensorOperand::Plain(array) => array@,
        TensorOperand::Normalized(array) => array.directions(),
    };
    let ahead = seq![left.dtype, right.dtype];
    assert(ahead.skip(1) =~= seq![right.dtype]);
    let back = seq![right.dtype, left.dtype];
    assert(back.skip(1) =~= seq![left.dtype]);
}

/// Operands are factored exactly where one of them is stored as directions and norms. What is then
/// left to compute is computed without fail, and comes to what multiplying the operands comes to:
/// null where an operand is, and otherwise, in exact arithmetic, the inner product of all the
/// elements of the two rows, multiplied once by each norm that there is.
pub proof fn operands_are_factored_where_norms_are_stored<T: Arithmetic, N>(
    numbers: Numbers<N>,
    exact: spec_fn(T) -> N,
    f: InnerProduct<T>,
    lhs: TensorOperand<T>,
    rhs: TensorOperand<T>,
    reduced: Option<LazyProduct<T>>,
    result: Result<Array<T>, Error>,
    i: int,
)
    requires
        numbers.lawful(),
        exact_arithmetic(numbers, exact),
        lhs.wf(),
        rhs.wf(),
        call_ensures(
            InnerProduct::<T>::reduce_encoded_operands,
            (&f, &lhs, &rhs),
            Ok::<Option<LazyProduct<T>>, Error>(reduced),
        ),
        reduced is Some ==> call_ensures(LazyProduct::<T>::execute, (&reduced->0,), result),
    ensures
        reduced is None <==> lhs is Plain && rhs is Plain,
        reduced is Some ==> result is Ok && result->Ok_0@.len() == match lhs {
            TensorOperand::Plain(left) => left@.len(),
            TensorOperand::Normalized(left) => left.directions().len(),
        },
        reduced is Some && 0 <= i < result->Ok_0@.len() ==> {
            let array = result->Ok_0;
            let x = match lhs {
                TensorOperand::Plain(left) => (left@.payload[i]->0)@,
                TensorOperand::Normalized(left) => (left.directions().payload[i]->0)@,
            };
            let y = match rhs {
                TensorOperand::Plain(right) => (right@.payload[i]->0)@,
                TensorOperand::Normalized(right) => (right.directions().payload[i]->0)@,
            };
            let dot = numbers.dot(
                Seq::new(x.len(), |k: int| exact(x[k])),
                Seq::new(y.len(), |k: int| exact(y[k])),
                x.len(),
            );
            &&& array@.valid[i] <==> (match lhs {
                TensorOperand::Plain(left) => left@.valid[i],
                TensorOperand::Normalized(left) => left.directions().valid[i]
                    && left.scales().valid[i],
            }) && (match rhs {
                TensorOperand::Plain(right) => right@.valid[i],
                TensorOperand::Normalized(right) => right.directions().valid[i]
                    && right.scales().valid[i],
            })
            &&& array@.valid[i] && x.len() == y.len() ==> exact(array@.payload[i]->0) == match (
                lhs,
                rhs,
            ) {
                (TensorOperand::Plain(_), TensorOperand::Plain(_)) => dot,
                (TensorOperand::Normalized(left), TensorOperand::Plain(_)) => (numbers.times)(
                    dot,
                    exact(left.scales().payload[i]->0),
                ),
                (TensorOperand::Plain(_), TensorOperand::Normalized(right)) => (numbers.times)(
                    dot,
                    exact(right.scales().payload[i]->0),
                ),
                (TensorOperand::Normalized(left), TensorOperand::Normalized(right)) => {
                    (numbers.times)(
                        (numbers.times)(dot, exact(left.scales().payload[i]->0)),
                        exact(right.scales().payload[i]->0),
                    )
                },
            }
        },
{
    reveal_with_fuel(lazy_wf, 4);
    reveal_with_fuel(lazy_valid, 4);
    reveal_with_fuel(lazy_width, 4);
    reveal_with_fuel(lazy_number, 4);
    reveal_with_fuel(LazyModel::len, 4);
    if let Some(left_over) = reduced {
        let product = factored(lhs, rhs);
        lazy_products_succeed(product, lhs.rows(), result);
        let array = result->Ok_0;
        lemma_lazy_valid(product, array);
        if 0 <= i < array@.len() {
            lemma_lazy_rows(numbers, exact, product, array);
            let x = match lhs {
                TensorOperand::Plain(left) => (left@.payload[i]->0)@,
                TensorOperand::Normalized(left) => (left.directions().payload[i]->0)@,
            };
            let y = match rhs {
                TensorOperand::Plain(right) => (right@.payload[i]->0)@,
                TensorOperand::Normalized(right) => (right.directions().payload[i]->0)@,
            };
            assert(exact_row(exact, x) =~= Seq::new(x.len(), |k: int| exact(x[k])));
            assert(exact_row(exact, y) =~= Seq::new(y.len(), |k: int| exact(y[k])));
            inner_product_is_symmetric(numbers, exact_row(exact, x), exact_row(exact, y), x.len());
        }
    }
}

/// An inner product has a wire representation, which is empty, and any bytes read back as it.
pub proof fn inner_products_are_written_as_no_bytes<T: Arithmetic>(
    f: InnerProduct<T>,
    metadata: &[u8],
    written: Result<Option<Vec<u8>>, Error>,
    read: Result<EmptyOptions, Error>,
)
    requires
        call_ensures(<InnerProduct<T> as RowFn>::serialize, (&f,), written),
        call_ensures(<InnerProduct<T> as RowFn>::deserialize, (&f, metadata), read),
    ensures
        written matches Ok(Some(bytes)) && bytes@ == Seq::<u8>::empty(),
        read is Ok,
{
}

/// Two columns are multiplied at the width of their elements, which are floats, and only where both
/// hold tensors of one type but for its nullability.
pub proof fn columns_are_multiplied_at_their_width<T: Arithmetic>(
    f: InnerProduct<T>,
    args: &[DType],
    result: Result<PType, Error>,
)
    requires
        args@.len() == 2,
        call_ensures(InnerProduct::<T>::dispatch, (&f, args), result),
    ensures
        result is Ok <==> {
            let kind = args@[0]@.with_nullability(Nullability::NonNullable);
            &&& kind == args@[1]@.with_nullability(Nullability::NonNullable)
            &&& match kind {
                DTypeModel::Extension(ExtModel::Vector { element, .. }) => element == PType::F16
                    || element == PType::F32 || element == PType::F64,
                DTypeModel::Extension(ExtModel::FixedShapeTensor { element, .. }) => element
                    == PType::F16 || element == PType::F32 || element == PType::F64,
                _ => false,
            }
        },
        result matches Ok(width) ==> match args@[0]@ {
            DTypeModel::Extension(ExtModel::Vector { element, .. }) => element == width,
            DTypeModel::Extension(ExtModel::FixedShapeTensor { element, .. }) => element == width,
            _ => false,
        },
{
    reveal_with_fuel(tensor_rejection_from, 3);
    let dtypes = models(args@);
    assert(dtypes[0] == args@[0]@);
    assert(dtypes[1] == args@[1]@);
}

/// Why two operands have no inner product, where they have none. The operand that is stored as
/// directions and norms is looked at first where only one is. Its tensors are named where they are
/// none, then those of the other operand, then both where they differ, then the elements where they
/// are no floats, then the tensors where they are not of the width that is computed with. Then it
/// is said that the rows do not match, and last the norms are named that are not of that width.
pub proof fn refused_operands_are_named<T: Arithmetic>(
    f: InnerProduct<T>,
    lhs: TensorOperand<T>,
    rhs: TensorOperand<T>,
    error: Error,
)
    requires
        lhs.wf(),
        rhs.wf(),
        T::stored().nullability() == Nullability::NonNullable,
        call_ensures(
            InnerProduct::<T>::execute_operands,
            (&f, &lhs, &rhs),
            Err::<Array<T>, Error>(error),
        ),
    ensures
        ({
            let left = match lhs {
                TensorOperand::Plain(array) => array@,
                TensorOperand::Normalized(array) => array.directions(),
            };
            let right = match rhs {
                TensorOperand::Plain(array) => array@,
                TensorOperand::Normalized(array) => array.directions(),
            };
            let (first, other) = if lhs is Plain && rhs is Normalized {
                (right.dtype, left.dtype)
            } else {
                (left.dtype, right.dtype)
            };
            if tensor_element(first) is None {
                error@ == (ErrorModel::NotATensor { dtype: first })
            } else if tensor_element(other) is None {
                error@ == (ErrorModel::NotATensor { dtype: other })
            } else if first.with_nullability(Nullability::NonNullable) != other.with_nullability(
                Nullability::NonNullable,
            ) {
                error@ == (ErrorModel::DifferentTensors { first, other })
            } else {
                let element = tensor_element(first)->0;
                if element != PType::F16 && element != PType::F32 && element != PType::F64 {
                    error@ == (ErrorModel::NotAFloat { element })
                } else if T::stored() != DTypeModel::Primitive(element, Nullability::NonNullable) {
                    error@ == (ErrorModel::UnexpectedDType { dtype: first })
                } else if left.len() != right.len() {
                    error@ == (ErrorModel::ColumnRows { row_count: left.len() })
                } else {
                    match (lhs, rhs) {
                        (TensorOperand::Normalized(array), _) if array.scales().dtype
                            .with_nullability(Nullability::NonNullable) != T::stored() => error@
                            == (ErrorModel::UnexpectedDType { dtype: array.scales().dtype }),
                        (_, TensorOperand::Normalized(array)) => error@
                            == (ErrorModel::UnexpectedDType { dtype: array.scales().dtype }),
                        _ => false,
                    }
                }
            }
        }),
{
    reveal_with_fuel(lazy_rejection, 4);
    reveal_with_fuel(tensor_rejection_from, 3);
    let left = match lhs {
        TensorOperand::Plain(array) => array@,
        TensorOperand::Normalized(array) => array.directions(),
    };
    let right = match rhs {
        TensorOperand::Plain(array) => array@,
        TensorOperand::Normalized(array) => array.directions(),
    };
    let ahead = seq![left.dtype, right.dtype];
    assert(ahead.skip(1) =~= seq![right.dtype]);
    let back = seq![right.dtype, left.dtype];
    assert(back.skip(1) =~= seq![left.dtype]);
}

} // verus!
