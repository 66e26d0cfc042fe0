//! The numbers that the elements of a tensor stand for, and their exact inner product.

use vstd::prelude::*;

verus! {

/// Numbers that can be added and multiplied.
#[verifier::reject_recursive_types(N)]
pub struct Numbers<N> {
    pub zero: N,
    pub plus: spec_fn(N, N) -> N,
    pub times: spec_fn(N, N) -> N,
}

impl<N> Numbers<N> {
    pub open spec fn sum(self, x: N, y: N) -> N {
        (self.plus)(x, y)
    }

    pub open spec fn product(self, x: N, y: N) -> N {
        (self.times)(x, y)
    }

    /// Whether the laws of a commutative ring hold that need no subtraction.
    #[verifier::opaque]
    pub open spec fn lawful(self) -> bool {
        &&& forall|x: N, y: N| #[trigger] self.sum(x, y) == self.sum(y, x)
        &&& forall|x: N, y: N, z: N|
            #[trigger] self.sum(self.sum(x, y), z) == self.sum(x, self.sum(y, z))
        &&& forall|x: N| #[trigger] self.sum(self.zero, x) == x
        &&& forall|x: N, y: N| #[trigger] self.product(x, y) == self.product(y, x)
        &&& forall|x: N, y: N, z: N|
            #[trigger] self.product(self.product(x, y), z) == self.product(x, self.product(y, z))
        &&& forall|x: N, y: N, z: N|
            #[trigger] self.product(self.sum(x, y), z) == self.sum(
                self.product(x, z),
                self.product(y, z),
            )
        &&& forall|x: N| #[trigger] self.product(self.zero, x) == self.zero
    }

    proof fn lemma_commutes(self, x: N, y: N)
        requires
            self.lawful(),
        ensures
            self.product(x, y) == self.product(y, x),
    {
        reveal(Numbers::lawful);
    }

    proof fn lemma_associates(self, x: N, y: N, z: N)
        requires
            self.lawful(),
        ensures
            self.product(self.product(x, y), z) == self.product(x, self.product(y, z)),
    {
        reveal(Numbers::lawful);
    }

    proof fn lemma_distributes(self, x: N, y: N, z: N)
        requires
            self.lawful(),
        ensures
            self.product(self.sum(x, y), z) == self.sum(self.product(x, z), self.product(y, z)),
    {
        reveal(Numbers::lawful);
    }

    proof fn lemma_zero(self, x: N)
        requires
            self.lawful(),
        ensures
            self.product(self.zero, x) == self.zero,
    {
        reveal(Numbers::lawful);
    }

    /// The factors behind the first may trade places.
    proof fn lemma_swaps(self, x: N, y: N, z: N)
        requires
            self.lawful(),
        ensures
            self.product(self.product(x, y), z) == self.product(self.product(x, z), y),
    {
        self.lemma_associates(x, y, z);
        self.lemma_commutes(y, z);
        self.lemma_associates(x, z, y);
    }

    /// The sum of the products of the first `n` pairs, computed exactly.
    pub open spec fn dot(self, x: Seq<N>, y: Seq<N>, n: nat) -> N
        decreases n,
    {
        if n == 0 {
            self.zero
        } else {
            self.sum(self.dot(x, y, (n - 1) as nat), self.product(x[n - 1], y[n - 1]))
        }
    }

    /// Every element, times `factor`.
    pub open spec fn scaled_by(self, x: Seq<N>, factor: N) -> Seq<N> {
        x.map_values(|element: N| self.product(element, factor))
    }
}

/// The integers.
pub open spec fn integers() -> Numbers<int> {
    Numbers { zero: 0, plus: |x: int, y: int| x + y, times: |x: int, y: int| x * y }
}

/// The reals.
pub open spec fn reals() -> Numbers<real> {
    Numbers { zero: 0 as real, plus: |x: real, y: real| x + y, times: |x: real, y: real| x * y }
}

/// The integers are lawful.
pub proof fn integers_are_lawful()
    ensures
        integers().lawful(),
{
    reveal(Numbers::lawful);
    let numbers = integers();
    assert forall|x: int, y: int| #[trigger] numbers.product(x, y) == numbers.product(y, x) by {
        assert(x * y == y * x) by (nonlinear_arith);
    }
    assert forall|x: int, y: int, z: int|
        #[trigger] numbers.product(numbers.product(x, y), z) == numbers.product(
            x,
            numbers.product(y, z),
        ) by {
        assert((x * y) * z == x * (y * z)) by (nonlinear_arith);
    }
    assert forall|x: int, y: int, z: int|
        #[trigger] numbers.product(numbers.sum(x, y), z) == numbers.sum(
            numbers.product(x, z),
            numbers.product(y, z),
        ) by {
        assert((x + y) * z == x * z + y * z) by (nonlinear_arith);
    }
}

/// The reals are lawful.
pub proof fn reals_are_lawful()
    ensures
        reals().lawful(),
{
    reveal(Numbers::lawful);
    let numbers = reals();
    assert forall|x: real, y: real| #[trigger] numbers.product(x, y) == numbers.product(y, x) by {
        assert(x * y == y * x) by (nonlinear_arith);
    }
    assert forall|x: real, y: real, z: real|
        #[trigger] numbers.product(numbers.product(x, y), z) == numbers.product(
            x,
            numbers.product(y, z),
        ) by {
        assert((x * y) * z == x * (y * z)) by (nonlinear_arith);
    }
    assert forall|x: real, y: real, z: real|
        #[trigger] numbers.product(numbers.sum(x, y), z) == numbers.sum(
            numbers.product(x, z),
            numbers.product(y, z),
        ) by {
        assert((x + y) * z == x * z + y * z) by (nonlinear_arith);
    }
    assert forall|x: real| #[trigger] numbers.product(numbers.zero, x) == numbers.zero by {
        assert((0 as real) * x == 0 as real) by (nonlinear_arith);
    }
}

/// The operands of an inner product may trade places.
pub proof fn inner_product_is_symmetric<N>(numbers: Numbers<N>, x: Seq<N>, y: Seq<N>, n: nat)
    requires
        numbers.lawful(),
    ensures
        numbers.dot(x, y, n) == numbers.dot(y, x, n),
    decreases n,
{
    if n > 0 {
        inner_product_is_symmetric(numbers, x, y, (n - 1) as nat);
        numbers.lemma_commutes(x[n - 1], y[n - 1]);
    }
}

/// A norm factors out of an inner product.
pub proof fn norm_factors_out<N>(numbers: Numbers<N>, x: Seq<N>, y: Seq<N>, s: N, n: nat)
    requires
        numbers.lawful(),
        n <= x.len(),
    ensures
        numbers.dot(numbers.scaled_by(x, s), y, n) == numbers.product(numbers.dot(x, y, n), s),
    decreases n,
{
    if n > 0 {
        norm_factors_out(numbers, x, y, s, (n - 1) as nat);
        let rest = numbers.dot(x, y, (n - 1) as nat);
        let a = x[n - 1];
        let b = y[n - 1];
        numbers.lemma_swaps(a, s, b);
        numbers.lemma_distributes(rest, numbers.product(a, b), s);
    } else {
        numbers.lemma_zero(s);
    }
}

/// Both norms factor out of an inner product.
pub proof fn norms_factor_out<N>(
    numbers: Numbers<N>,
    x: Seq<N>,
    y: Seq<N>,
    s: N,
    t: N,
    n: nat,
)
    requires
        numbers.lawful(),
        n <= x.len(),
        n <= y.len(),
    ensures
        numbers.dot(numbers.scaled_by(x, s), numbers.scaled_by(y, t), n) == numbers.product(
            numbers.product(numbers.dot(x, y, n), s),
            t,
        ),
{
    let scaled = numbers.scaled_by(y, t);
    norm_factors_out(numbers, x, scaled, s, n);
    inner_product_is_symmetric(numbers, x, scaled, n);
    norm_factors_out(numbers, y, x, t, n);
    inner_product_is_symmetric(numbers, y, x, n);
    numbers.lemma_swaps(numbers.dot(x, y, n), t, s);
}

/// An inner product adds up the product of each pair, one pair at a time: of no pairs it is zero,
/// and with one more pair it is what it was, plus the product of that pair.
pub proof fn inner_products_add_up_pair_by_pair<N>(
    numbers: Numbers<N>,
    x: Seq<N>,
    y: Seq<N>,
    n: nat,
)
    ensures
        numbers.dot(x, y, 0) == numbers.zero,
        numbers.dot(x, y, n + 1) == (numbers.plus)(
            numbers.dot(x, y, n),
            (numbers.times)(x[n as int], y[n as int]),
        ),
{
}

/// Scaling multiplies each element by the factor, and only that.
pub proof fn scaling_multiplies_each_element<N>(numbers: Numbers<N>, x: Seq<N>, factor: N)
    ensures
        numbers.scaled_by(x, factor).len() == x.len(),
        forall|i: int|
            0 <= i < x.len() ==> #[trigger] numbers.scaled_by(x, factor)[i] == (numbers.times)(
                x[i],
                factor,
            ),
{
}

} // verus!
