//! Columns: one payload per row, shared where every row is the same, and a validity.

use std::sync::Arc;

use vstd::prelude::*;

use crate::dtype::{DType, DTypeModel, Nullability};
use crate::mask::{
    all_set, both, filtered, lemma_filtered_at, lemma_filtered_len, lemma_filtered_source,
    lemma_rank_of_set, none_set, rank, set_count, Mask,
};

verus! {

/// What an [`Array`] denotes.
///
/// A row may carry a payload behind a null: `payload` is what the row stores, `valid` is whether
/// anyone may see it.
#[verifier::ext_equal]
pub struct ArrayModel<V> {
    pub dtype: DTypeModel,
    /// The scalar that every row repeats, where the array is stored as one; it may be null.
    pub constant: Option<Option<V>>,
    pub payload: Seq<Option<V>>,
    pub valid: Seq<bool>,
}

impl<V> ArrayModel<V> {
    pub open spec fn len(self) -> nat {
        self.valid.len()
    }

    /// The value of row `i`, absent where the row is null.
    pub open spec fn row(self, i: int) -> Option<V> {
        if self.valid[i] {
            self.payload[i]
        } else {
            None
        }
    }

    /// The value of every row.
    pub open spec fn rows(self) -> Seq<Option<V>> {
        Seq::new(self.len(), |i: int| self.row(i))
    }

    pub open spec fn wf(self) -> bool {
        &&& self.payload.len() == self.valid.len()
        &&& forall|i: int| 0 <= i < self.len() && self.valid[i] ==> self.payload[i] is Some
        &&& !self.dtype.nullable() ==> all_set(self.valid)
        &&& self.null_constant() ==> self.dtype.nullable()
        &&& self.constant matches Some(scalar) ==> forall|i: int|
            0 <= i < self.len() ==> self.payload[i] == scalar
    }

    /// Whether this is a constant whose scalar is null.
    pub open spec fn null_constant(self) -> bool {
        self.constant == Some(None::<V>)
    }

    /// The array over only the rows set in `bits`.
    pub open spec fn filter(self, bits: Seq<bool>) -> ArrayModel<V> {
        ArrayModel {
            dtype: self.dtype,
            constant: self.constant,
            payload: filtered(self.payload, bits),
            valid: filtered(self.valid, bits),
        }
    }

    /// The array with every row outside `bits` made null.
    pub open spec fn mask(self, bits: Seq<bool>) -> ArrayModel<V> {
        ArrayModel {
            dtype: self.dtype.as_nullable(),
            constant: self.constant,
            payload: self.payload,
            valid: both(self.valid, bits),
        }
    }

    /// One row per bit: the next row at each set bit, and null at the others.
    pub open spec fn scatter(self, bits: Seq<bool>) -> ArrayModel<V> {
        ArrayModel {
            dtype: self.dtype.as_nullable(),
            constant: None,
            payload: Seq::new(
                bits.len(),
                |i: int|
                    if bits[i] {
                        self.payload[rank(bits, i) as int]
                    } else {
                        None
                    },
            ),
            valid: Seq::new(bits.len(), |i: int| bits[i] && self.valid[rank(bits, i) as int]),
        }
    }

    /// The first row, `len` times over.
    pub open spec fn broadcast(self, len: nat) -> ArrayModel<V> {
        match self.row(0) {
            Some(value) => repeated(self.dtype, value, len),
            None => nulls(self.dtype, len),
        }
    }

    /// The array with a nullable type and the same rows.
    pub open spec fn widened(self, nullable: bool) -> ArrayModel<V> {
        ArrayModel { dtype: self.dtype.widened(nullable), ..self }
    }
}

/// An array of `len` nulls.
pub open spec fn nulls<V>(dtype: DTypeModel, len: nat) -> ArrayModel<V> {
    ArrayModel {
        dtype: dtype.as_nullable(),
        constant: Some(None),
        payload: Seq::new(len, |i: int| None),
        valid: Seq::new(len, |i: int| false),
    }
}

/// An array of `len` rows that all hold `value`.
pub open spec fn repeated<V>(dtype: DTypeModel, value: V, len: nat) -> ArrayModel<V> {
    ArrayModel {
        dtype,
        constant: Some(Some(value)),
        payload: Seq::new(len, |i: int| Some(value)),
        valid: Seq::new(len, |i: int| true),
    }
}

/// An array that holds each of `values`, none of them null.
pub open spec fn dense<V>(dtype: DTypeModel, values: Seq<V>) -> ArrayModel<V> {
    ArrayModel {
        dtype,
        constant: None,
        payload: Seq::new(values.len(), |i: int| Some(values[i])),
        valid: Seq::new(values.len(), |i: int| true),
    }
}

/// A nullable array of the given rows, without a payload behind the nulls.
pub open spec fn sparse<V>(dtype: DTypeModel, rows: Seq<Option<V>>) -> ArrayModel<V> {
    ArrayModel {
        dtype: dtype.as_nullable(),
        constant: None,
        payload: rows,
        valid: Seq::new(rows.len(), |i: int| rows[i] is Some),
    }
}

/// How the payloads of an array are stored.
#[derive(Debug)]
enum Encoding<V> {
    /// One scalar for every row, null where there is none.
    Constant(Option<Arc<V>>),
    /// A payload for each row, which only a null row may lack.
    Column(Vec<Option<Arc<V>>>),
}

impl<V> Encoding<V> {
    spec fn payload(self, len: nat) -> Seq<Option<V>> {
        match self {
            Encoding::Constant(scalar) => Seq::new(len, |i: int| unshared(scalar)),
            Encoding::Column(rows) => Seq::new(len, |i: int| unshared(rows@[i])),
        }
    }
}

spec fn unshared<V>(scalar: Option<Arc<V>>) -> Option<V> {
    match scalar {
        Some(value) => Some(*value),
        None => None,
    }
}

fn share<V>(scalar: &Option<Arc<V>>) -> (result: Option<Arc<V>>)
    ensures
        result == *scalar,
{
    match scalar {
        Some(value) => Some(value.clone()),
        None => None,
    }
}

/// A column of values of one logical type.
#[derive(Debug)]
pub struct Array<V> {
    dtype: DType,
    encoding: Encoding<V>,
    valid: Mask,
}

impl<V> View for Array<V> {
    type V = ArrayModel<V>;

    closed spec fn view(&self) -> ArrayModel<V> {
        ArrayModel {
            dtype: self.dtype@,
            constant: match self.encoding {
                Encoding::Constant(scalar) => Some(unshared(scalar)),
                Encoding::Column(_) => None,
            },
            payload: self.encoding.payload(self.valid@.len()),
            valid: self.valid@,
        }
    }
}

impl<V> Array<V> {
    #[verifier::type_invariant]
    pub closed spec fn inv(self) -> bool {
        &&& self@.wf()
        &&& self.encoding matches Encoding::Column(rows) ==> rows@.len() == self.valid@.len()
        &&& self.encoding matches Encoding::Constant(None) ==> none_set(self.valid@)
    }

    /// What an array denotes is well formed.
    pub proof fn lemma_wf(array: Array<V>)
        requires
            array.inv(),
        ensures
            array@.wf(),
    {
    }

    /// A column of `values`, none of them null.
    pub fn from_values(values: Vec<V>, dtype: DType) -> (array: Array<V>)
        ensures
            array@ == dense(dtype@, values@),
    {
        let len = values.len();
        let mut values = values;
        let ghost all = values@;
        let mut reversed: Vec<Option<Arc<V>>> = Vec::new();
        while values.len() > 0
            invariant
                values@.len() + reversed@.len() == all.len(),
                values@ == all.take(values@.len() as int),
                forall|i: int|
                    0 <= i < reversed@.len() ==> unshared(#[trigger] reversed@[i]) == Some(
                        all[all.len() - 1 - i],
                    ),
            decreases values@.len(),
        {
            let value = values.pop();
            match value {
                Some(value) => {
                    reversed.push(Some(Arc::new(value)));
                },
                None => {},
            }
            assert(values@ =~= all.take(values@.len() as int));
        }
        let rows = reverse(reversed);
        let valid = Mask::new_true(len);
        let encoding = Encoding::Column(rows);
        proof {
            assert(encoding.payload(len as nat) =~= dense(dtype@, all).payload) by {
                assert forall|i: int| 0 <= i < len implies unshared(rows@[i]) == Some(all[i]) by {
                    assert(rows@[i] == reversed@[len - 1 - i]);
                }
            }
            assert(valid@ =~= dense(dtype@, all).valid);
        }
        Array { dtype, encoding, valid }
    }

    /// A nullable column of `rows`, null where there is no value.
    pub fn from_options(rows: Vec<Option<V>>, dtype: DType) -> (array: Array<V>)
        ensures
            array@ == sparse(dtype@, rows@),
    {
        let len = rows.len();
        let mut rows = rows;
        let ghost all = rows@;
        let mut payload: Vec<Option<Arc<V>>> = Vec::new();
        let mut bits: Vec<bool> = Vec::new();
        while rows.len() > 0
            invariant
                rows@.len() + payload@.len() == all.len(),
                bits@.len() == payload@.len(),
                rows@ == all.take(rows@.len() as int),
                forall|i: int|
                    0 <= i < payload@.len() ==> unshared(#[trigger] payload@[i]) == all[all.len()
                        - 1 - i],
                forall|i: int|
                    0 <= i < bits@.len() ==> #[trigger] bits@[i] == (all[all.len() - 1 - i]
                        is Some),
            decreases rows@.len(),
        {
            let row = rows.pop();
            match row {
                Some(Some(value)) => {
                    payload.push(Some(Arc::new(value)));
                    bits.push(true);
                },
                Some(None) => {
                    payload.push(None);
                    bits.push(false);
                },
                None => {},
            }
            assert(rows@ =~= all.take(rows@.len() as int));
        }
        let payload_in_order = reverse(payload);
        let bits_in_order = reverse(bits);
        let dtype_nullable = dtype.as_nullable();
        let valid = Mask::from_bits(bits_in_order);
        let encoding = Encoding::Column(payload_in_order);
        proof {
            assert(encoding.payload(len as nat) =~= all) by {
                assert forall|i: int| 0 <= i < len implies unshared(payload_in_order@[i])
                    == all[i] by {
                    assert(payload_in_order@[i] == payload@[len - 1 - i]);
                }
            }
            assert(valid@ =~= sparse(dtype@, all).valid) by {
                assert forall|i: int| 0 <= i < len implies valid@[i] == (all[i] is Some) by {
                    assert(bits_in_order@[i] == bits@[len - 1 - i]);
                }
            }
            lemma_with_nullability(dtype@);
        }
        Array { dtype: dtype_nullable, encoding, valid }
    }

    /// `len` rows that all hold `value`.
    pub fn constant(value: V, dtype: DType, len: usize) -> (array: Array<V>)
        ensures
            array@ == repeated(dtype@, value, len as nat),
    {
        let encoding = Encoding::Constant(Some(Arc::new(value)));
        let valid = Mask::new_true(len);
        assert(encoding.payload(len as nat) =~= repeated(dtype@, value, len as nat).payload);
        assert(valid@ =~= repeated(dtype@, value, len as nat).valid);
        Array { dtype, encoding, valid }
    }

    /// `len` nulls.
    pub fn null_constant(dtype: &DType, len: usize) -> (array: Array<V>)
        ensures
            array@ == nulls::<V>(dtype@, len as nat),
    {
        let encoding = Encoding::Constant(None);
        let valid = Mask::new_false(len);
        let dtype_nullable = dtype.as_nullable();
        assert(encoding.payload(len as nat) =~= nulls::<V>(dtype@, len as nat).payload);
        assert(valid@ =~= nulls::<V>(dtype@, len as nat).valid);
        proof {
            lemma_with_nullability(dtype@);
        }
        Array { dtype: dtype_nullable, encoding, valid }
    }

    pub fn len(&self) -> (len: usize)
        ensures
            len == self@.len(),
    {
        self.valid.len()
    }

    pub fn dtype(&self) -> (dtype: &DType)
        ensures
            dtype@ == self@.dtype,
    {
        &self.dtype
    }

    /// The rows that are not null.
    pub fn validity(&self) -> (mask: &Mask)
        ensures
            mask@ == self@.valid,
    {
        &self.valid
    }

    /// Whether the array is stored as one scalar, which may be null.
    pub fn is_constant(&self) -> (result: bool)
        ensures
            result == (self@.constant is Some),
    {
        match &self.encoding {
            Encoding::Constant(_) => true,
            Encoding::Column(_) => false,
        }
    }

    /// Whether the array is a constant whose scalar is null.
    pub fn is_null_constant(&self) -> (result: bool)
        ensures
            result == self@.null_constant(),
    {
        match &self.encoding {
            Encoding::Constant(None) => true,
            _ => false,
        }
    }

    /// The scalar of a constant, where it has one and it is not null.
    pub fn scalar(&self) -> (result: Option<&V>)
        ensures
            match result {
                Some(value) => self@.constant == Some(Some(*value)),
                None => self@.constant is None || self@.null_constant(),
            },
    {
        match &self.encoding {
            Encoding::Constant(Some(value)) => Some(&**value),
            _ => None,
        }
    }

    /// The payload of row `index`, whether the row is null or not.
    pub fn payload(&self, index: usize) -> (result: Option<&V>)
        requires
            index < self@.len(),
        ensures
            match result {
                Some(value) => self@.payload[index as int] == Some(*value),
                None => self@.payload[index as int] is None,
            },
    {
        proof {
            use_type_invariant(self);
        }
        let slot: &Option<Arc<V>> = match &self.encoding {
            Encoding::Constant(scalar) => scalar,
            Encoding::Column(rows) => &rows[index],
        };
        match slot {
            Some(value) => Some(&**value),
            None => None,
        }
    }

    /// The value of row `index`, absent where the row is null.
    pub fn row(&self, index: usize) -> (result: Option<&V>)
        requires
            index < self@.len(),
        ensures
            match result {
                Some(value) => self@.row(index as int) == Some(*value),
                None => self@.row(index as int) is None,
            },
    {
        if self.valid.value(index) {
            self.payload(index)
        } else {
            None
        }
    }

    fn shared_payload(&self, index: usize) -> (result: Option<Arc<V>>)
        requires
            index < self@.len(),
        ensures
            unshared(result) == self@.payload[index as int],
    {
        proof {
            use_type_invariant(self);
        }
        match &self.encoding {
            Encoding::Constant(scalar) => share(scalar),
            Encoding::Column(rows) => share(&rows[index]),
        }
    }

    /// Another handle on the same rows.
    pub fn duplicate(&self) -> (array: Array<V>)
        ensures
            array@ == self@,
    {
        let all = Mask::new_true(self.len());
        let array = self.filter(&all);
        proof {
            use_type_invariant(self);
            lemma_filter_all(self@, all@);
        }
        array
    }

    /// Only the rows set in `mask`.
    pub fn filter(&self, mask: &Mask) -> (array: Array<V>)
        requires
            mask@.len() == self@.len(),
        ensures
            array@ == self@.filter(mask@),
    {
        proof {
            use_type_invariant(self);
        }
        let len = self.len();
        let mut rows: Vec<Option<Arc<V>>> = Vec::new();
        let mut bits: Vec<bool> = Vec::new();
        let mut i: usize = 0;
        assert(mask@.take(0) =~= Seq::<bool>::empty());
        while i < len
            invariant
                i <= len,
                len == self@.len(),
                mask@.len() == len,
                self@.payload.len() == len,
                rows@.len() == bits@.len(),
                Seq::new(rows@.len(), |k: int| unshared(rows@[k])) == filtered(
                    self@.payload,
                    mask@.take(i as int),
                ),
                bits@ == filtered(self@.valid, mask@.take(i as int)),
            decreases len - i,
        {
            assert(mask@.take(i + 1).drop_last() =~= mask@.take(i as int));
            if mask.value(i) {
                let ghost before = rows@;
                let row = self.shared_payload(i);
                rows.push(row);
                bits.push(self.valid.value(i));
                assert(Seq::new(rows@.len(), |k: int| unshared(rows@[k])) =~= Seq::new(
                    before.len(),
                    |k: int| unshared(before[k]),
                ).push(unshared(row)));
            }
            i += 1;
        }
        assert(mask@.take(i as int) =~= mask@);
        let dtype = self.dtype.clone();
        let kept = rows.len();
        let encoding = match &self.encoding {
            Encoding::Constant(scalar) => Encoding::Constant(share(scalar)),
            Encoding::Column(_) => Encoding::Column(rows),
        };
        let valid = Mask::from_bits(bits);
        proof {
            let model = self@.filter(mask@);
            lemma_filter_wf(self@, mask@);
            assert(encoding.payload(kept as nat) =~= model.payload) by {
                assert forall|k: int| 0 <= k < kept implies encoding.payload(kept as nat)[k]
                    == model.payload[k] by {
                    assert(Seq::new(rows@.len(), |k: int| unshared(rows@[k]))[k] == unshared(
                        rows@[k],
                    ));
                    lemma_filtered_len(self@.payload, mask@);
                    let source = lemma_filtered_source(self@.payload, mask@, k);
                }
            }
            if encoding matches Encoding::Constant(None) {
                assert forall|k: int| 0 <= k < kept implies !valid@[k] by {
                    lemma_filtered_len(self@.valid, mask@);
                    let source = lemma_filtered_source(self@.valid, mask@, k);
                }
            }
        }
        Array { dtype, encoding, valid }
    }

    /// A nullable array whose rows outside `mask` are null.
    pub fn mask(&self, mask: &Mask) -> (array: Array<V>)
        requires
            mask@.len() == self@.len(),
        ensures
            array@ == self@.mask(mask@),
    {
        proof {
            use_type_invariant(self);
        }
        let whole = self.duplicate();
        let valid = self.valid.and(mask);
        let dtype = self.dtype.as_nullable();
        proof {
            use_type_invariant(&whole);
            lemma_with_nullability(self.dtype@);
        }
        let encoding = whole.encoding;
        assert(encoding.payload(valid@.len()) =~= self@.payload);
        Array { dtype, encoding, valid }
    }

    /// The same rows, with a nullable type where `nullable` is set.
    pub fn widen(&self, nullable: bool) -> (array: Array<V>)
        ensures
            array@ == self@.widened(nullable),
    {
        if nullable {
            let all = Mask::new_true(self.len());
            let array = self.mask(&all);
            assert(array@ =~= self@.widened(nullable));
            array
        } else {
            self.duplicate()
        }
    }

    /// One row per row of `mask`: the next row of the array where it is set, and null elsewhere.
    pub fn scatter(&self, mask: &Mask) -> (array: Array<V>)
        requires
            set_count(mask@) == self@.len(),
        ensures
            array@ == self@.scatter(mask@),
    {
        proof {
            use_type_invariant(self);
        }
        let len = mask.len();
        let mut rows: Vec<Option<Arc<V>>> = Vec::new();
        let mut bits: Vec<bool> = Vec::new();
        let mut next: usize = 0;
        let size = self.len();
        let mut i: usize = 0;
        while i < len
            invariant
                i <= len,
                len == mask@.len(),
                size == self@.len(),
                set_count(mask@) == self@.len(),
                self@.wf(),
                next == rank(mask@, i as int),
                rows@.len() == i,
                bits@.len() == i,
                forall|k: int|
                    0 <= k < i ==> unshared(#[trigger] rows@[k]) == self@.scatter(mask@).payload[k],
                forall|k: int| 0 <= k < i ==> #[trigger] bits@[k] == self@.scatter(mask@).valid[k],
            decreases len - i,
        {
            if mask.value(i) {
                proof {
                    lemma_rank_of_set(mask@, i as int);
                }
                rows.push(self.shared_payload(next));
                bits.push(self.valid.value(next));
                next += 1;
            } else {
                rows.push(None);
                bits.push(false);
            }
            i += 1;
        }
        let encoding = Encoding::Column(rows);
        let valid = Mask::from_bits(bits);
        let dtype = self.dtype.as_nullable();
        proof {
            let model = self@.scatter(mask@);
            lemma_with_nullability(self.dtype@);
            assert(encoding.payload(len as nat) =~= model.payload);
            assert(valid@ =~= model.valid);
            assert forall|k: int|
                0 <= k < len && model.valid[k] implies model.payload[k] is Some by {
                lemma_rank_of_set(mask@, k);
            }
        }
        Array { dtype, encoding, valid }
    }

    /// The only row, `len` times over.
    pub fn broadcast(&self, len: usize) -> (array: Array<V>)
        requires
            self@.len() == 1,
        ensures
            array@ == self@.broadcast(len as nat),
    {
        proof {
            use_type_invariant(self);
        }
        if !self.valid.value(0) {
            return Array::null_constant(&self.dtype, len);
        }
        let encoding = Encoding::Constant(self.shared_payload(0));
        let valid = Mask::new_true(len);
        let dtype = self.dtype.clone();
        proof {
            let model = self@.broadcast(len as nat);
            assert(encoding.payload(len as nat) =~= model.payload);
            assert(valid@ =~= model.valid);
        }
        Array { dtype, encoding, valid }
    }

    /// A single row of a constant's scalar, without the constant's nulls.
    pub fn constant_row(&self) -> (array: Array<V>)
        requires
            self@.constant is Some,
            !self@.null_constant(),
        ensures
            array@ == repeated(self@.dtype, self@.constant->0->0, 1),
    {
        proof {
            use_type_invariant(self);
        }
        let encoding = match &self.encoding {
            Encoding::Constant(scalar) => Encoding::Constant(share(scalar)),
            Encoding::Column(_) => Encoding::Constant(None),
        };
        let valid = Mask::new_true(1);
        let dtype = self.dtype.clone();
        proof {
            let model = repeated(self@.dtype, self@.constant->0->0, 1);
            assert(encoding.payload(1) =~= model.payload);
            assert(valid@ =~= model.valid);
        }
        Array { dtype, encoding, valid }
    }
}

/// The rows of an array, one by one.
pub proof fn lemma_rows<V>(array: ArrayModel<V>)
    ensures
        array.rows().len() == array.len(),
        forall|i: int| 0 <= i < array.len() ==> array.rows()[i] == #[trigger] array.row(i),
{
}

/// Filtering keeps an array well formed.
pub proof fn lemma_filter_wf<V>(array: ArrayModel<V>, bits: Seq<bool>)
    requires
        array.wf(),
        bits.len() == array.len(),
    ensures
        array.filter(bits).wf(),
        array.filter(bits).len() == set_count(bits),
{
    let kept = array.filter(bits);
    lemma_filtered_len(array.payload, bits);
    lemma_filtered_len(array.valid, bits);
    assert forall|k: int| 0 <= k < kept.len() && kept.valid[k] implies kept.payload[k] is Some by {
        let i = lemma_filtered_source(array.payload, bits, k);
        lemma_filtered_at(array.valid, bits, i);
    }
    if !array.dtype.nullable() {
        assert forall|k: int| 0 <= k < kept.len() implies kept.valid[k] by {
            let i = lemma_filtered_source(array.valid, bits, k);
        }
    }
    if array.constant is Some {
        assert forall|k: int| 0 <= k < kept.len() implies kept.payload[k] == array.constant->0 by {
            let i = lemma_filtered_source(array.payload, bits, k);
        }
    }
}

/// Filtering by a full mask changes nothing.
pub proof fn lemma_filter_all<V>(array: ArrayModel<V>, bits: Seq<bool>)
    requires
        array.wf(),
        bits.len() == array.len(),
        all_set(bits),
    ensures
        array.filter(bits) == array,
{
    crate::mask::lemma_filtered_all(array.payload, bits);
    crate::mask::lemma_filtered_all(array.valid, bits);
    assert(array.filter(bits) =~= array);
}

proof fn lemma_with_nullability(dtype: DTypeModel)
    ensures
        dtype.as_nullable().nullable(),
{
}

/// The same items, last to first.
pub(crate) fn reverse<T>(items: Vec<T>) -> (result: Vec<T>)
    ensures
        result@ == items@.reverse(),
{
    let mut items = items;
    let ghost all = items@;
    let mut result: Vec<T> = Vec::new();
    while items.len() > 0
        invariant
            items@.len() + result@.len() == all.len(),
            items@ == all.take(items@.len() as int),
            forall|i: int|
                0 <= i < result@.len() ==> #[trigger] result@[i] == all[all.len() - 1 - i],
        decreases items@.len(),
    {
        let item = items.pop();
        match item {
            Some(item) => {
                result.push(item);
            },
            None => {},
        }
        assert(items@ =~= all.take(items@.len() as int));
    }
    assert(result@ =~= all.reverse());
    result
}

/// What is read of a row: its payload where the validity is set, and nothing where it is not.
pub proof fn rows_are_payloads_that_are_valid<V>(
    array: Array<V>,
    valid: Mask,
    i: usize,
    bit: bool,
    payload: Option<&V>,
    row: Option<&V>,
)
    requires
        i < array@.len(),
        call_ensures(Array::<V>::validity, (&array,), &valid),
        call_ensures(Mask::value, (&valid, i), bit),
        call_ensures(Array::<V>::payload, (&array, i), payload),
        call_ensures(Array::<V>::row, (&array, i), row),
    ensures
        row == if bit {
            payload
        } else {
            None
        },
{
}

/// A column of values reads back as them, none of them null and none of them shared.
pub proof fn values_are_read_back<V>(
    values: Vec<V>,
    dtype: DType,
    array: Array<V>,
    len: usize,
    kept: &DType,
    i: usize,
    row: Option<&V>,
    constant: bool,
)
    requires
        call_ensures(Array::<V>::from_values, (values, dtype), array),
        call_ensures(Array::<V>::len, (&array,), len),
        call_ensures(Array::<V>::dtype, (&array,), kept),
        call_ensures(Array::<V>::is_constant, (&array,), constant),
        call_ensures(Array::<V>::row, (&array, i), row),
    ensures
        len == values@.len(),
        kept@ == dtype@,
        i < len ==> row is Some && *(row->0) == values@[i as int],
        !constant,
{
}

/// A column of optional values reads back as them, null exactly where there is none, and its type
/// is nullable.
pub proof fn options_are_read_back<V>(
    rows: Vec<Option<V>>,
    dtype: DType,
    array: Array<V>,
    len: usize,
    kept: &DType,
    i: usize,
    row: Option<&V>,
)
    requires
        call_ensures(Array::<V>::from_options, (rows, dtype), array),
        call_ensures(Array::<V>::len, (&array,), len),
        call_ensures(Array::<V>::dtype, (&array,), kept),
        call_ensures(Array::<V>::row, (&array, i), row),
    ensures
        len == rows@.len(),
        kept@ == dtype@.with_nullability(Nullability::Nullable),
        i < len ==> match row {
            Some(value) => rows@[i as int] == Some(*value),
            None => rows@[i as int] is None,
        },
{
}

/// A constant reads back as its value at every row, and a null constant as null; each is stored as
/// one scalar.
pub proof fn constants_are_read_back<V>(
    value: V,
    dtype: DType,
    len: usize,
    array: Array<V>,
    nulls: Array<V>,
    scalar: Option<&V>,
    no_scalar: Option<&V>,
    i: usize,
    row: Option<&V>,
    null_row: Option<&V>,
)
    requires
        call_ensures(Array::<V>::constant, (value, dtype, len), array),
        call_ensures(Array::<V>::null_constant, (&dtype, len), nulls),
        call_ensures(Array::<V>::scalar, (&array,), scalar),
        call_ensures(Array::<V>::scalar, (&nulls,), no_scalar),
        call_ensures(Array::<V>::row, (&array, i), row),
        call_ensures(Array::<V>::row, (&nulls, i), null_row),
    ensures
        array@.len() == len,
        nulls@.len() == len,
        array@.dtype == dtype@,
        nulls@.dtype == dtype@.with_nullability(Nullability::Nullable),
        scalar matches Some(shared) && *shared == value,
        i < len ==> row is Some && *(row->0) == value,
        no_scalar is None,
        i < len ==> null_row is None,
{
}

/// An array knows whether it is stored as one scalar: it has one where it is a constant and no null
/// constant.
pub proof fn constants_know_their_scalar<V>(
    array: Array<V>,
    constant: bool,
    null_constant: bool,
    scalar: Option<&V>,
)
    requires
        call_ensures(Array::<V>::is_constant, (&array,), constant),
        call_ensures(Array::<V>::is_null_constant, (&array,), null_constant),
        call_ensures(Array::<V>::scalar, (&array,), scalar),
    ensures
        scalar is Some <==> constant && !null_constant,
        null_constant ==> constant,
{
}

/// What an array holds is consistent: a null is only where the type allows one, a row that is not
/// null has a payload, and a constant has its scalar at every row.
pub proof fn arrays_are_consistent<V>(array: Array<V>)
    requires
        array.inv(),
    ensures
        array@.payload.len() == array@.valid.len(),
        forall|i: int|
            0 <= i < array@.valid.len() && #[trigger] array@.valid[i] ==> array@.payload[i] is Some,
        forall|i: int|
            0 <= i < array@.valid.len() && !#[trigger] array@.valid[i]
                ==> array@.dtype.nullability() == Nullability::Nullable,
        forall|i: int|
            0 <= i < array@.valid.len() && array@.constant is Some
                ==> #[trigger] array@.payload[i] == array@.constant->0,
{
}

/// Masking changes nothing but the validity, which is left where both are set, and the type, which
/// is nullable.
pub proof fn masking_only_makes_rows_null<V>(array: Array<V>, bits: Mask, masked: Array<V>)
    requires
        array@.wf(),
        bits@.len() == array@.len(),
        call_ensures(Array::<V>::mask, (&array, &bits), masked),
    ensures
        masked@.valid.len() == array@.valid.len(),
        masked@.payload == array@.payload,
        masked@.constant == array@.constant,
        masked@.dtype == array@.dtype.with_nullability(Nullability::Nullable),
        forall|i: int|
            0 <= i < array@.valid.len() ==> #[trigger] masked@.valid[i] == (array@.valid[i]
                && bits@[i]),
        forall|i: int|
            0 <= i < array@.valid.len() ==> #[trigger] masked@.row(i) == if bits@[i] {
                array@.row(i)
            } else {
                None
            },
{
}

/// A copy of an array is the same array, and a widened one differs in its type at most, which is
/// nullable where it is asked to be.
pub proof fn widening_keeps_the_rows<V>(
    array: Array<V>,
    nullable: bool,
    copied: Array<V>,
    widened: Array<V>,
)
    requires
        call_ensures(Array::<V>::duplicate, (&array,), copied),
        call_ensures(Array::<V>::widen, (&array, nullable), widened),
    ensures
        copied@ == array@,
        widened@.payload == array@.payload,
        widened@.valid == array@.valid,
        widened@.constant == array@.constant,
        nullable ==> widened@.dtype == array@.dtype.with_nullability(Nullability::Nullable),
        !nullable ==> widened@.dtype == array@.dtype,
{
}

/// Filtering an array keeps exactly the rows that are set, in their order, each with its payload
/// and its validity, and scattering that puts them back: where `rows` lists the set rows in
/// increasing order, row `k` of the filtered array is row `rows[k]`, and the other way round.
pub proof fn filtering_and_scattering_move_rows_in_order<V>(
    array: Array<V>,
    bits: Mask,
    kept: Array<V>,
    scattered: Array<V>,
    rows: Seq<int>,
)
    requires
        array@.wf(),
        bits@.len() == array@.len(),
        call_ensures(Array::<V>::filter, (&array, &bits), kept),
        call_ensures(Array::<V>::scatter, (&kept, &bits), scattered),
        forall|j: int, k: int| 0 <= j < k < rows.len() ==> rows[j] < rows[k],
        forall|i: int| #[trigger] rows.contains(i) <==> 0 <= i < bits@.len() && bits@[i],
    ensures
        kept@.len() == rows.len(),
        kept@.payload.len() == rows.len(),
        kept@.dtype == array@.dtype,
        kept@.constant == array@.constant,
        forall|k: int|
            0 <= k < rows.len() ==> {
                &&& #[trigger] kept@.valid[k] == array@.valid[rows[k]]
                &&& kept@.payload[k] == array@.payload[rows[k]]
            },
        scattered@.len() == array@.len(),
        scattered@.dtype == array@.dtype.with_nullability(Nullability::Nullable),
        forall|i: int|
            0 <= i < array@.len() ==> #[trigger] scattered@.row(i) == if bits@[i] {
                array@.row(i)
            } else {
                None
            },
{
    crate::mask::filtering_keeps_the_set_rows_in_order(array@.payload, bits@, rows);
    crate::mask::filtering_keeps_the_set_rows_in_order(array@.valid, bits@, rows);
    assert forall|i: int| 0 <= i < array@.len() implies #[trigger] scattered@.row(i) == (
    if bits@[i] {
        array@.row(i)
    } else {
        None
    }) by {
        if bits@[i] {
            lemma_filtered_at(array@.payload, bits@, i);
            lemma_filtered_at(array@.valid, bits@, i);
        }
    }
}

/// Scattering puts the rows of an array at the set rows of a mask, in order, and nulls at all
/// others: where `rows` lists the set rows in increasing order, row `k` goes to `rows[k]`.
pub proof fn scattering_fills_the_set_rows_in_order<V>(
    array: Array<V>,
    bits: Mask,
    scattered: Array<V>,
    rows: Seq<int>,
)
    requires
        array@.wf(),
        array@.len() == rows.len(),
        call_ensures(Array::<V>::scatter, (&array, &bits), scattered),
        forall|j: int, k: int| 0 <= j < k < rows.len() ==> rows[j] < rows[k],
        forall|i: int| #[trigger] rows.contains(i) <==> 0 <= i < bits@.len() && bits@[i],
    ensures
        scattered@.len() == bits@.len(),
        scattered@.constant is None,
        scattered@.dtype == array@.dtype.with_nullability(Nullability::Nullable),
        forall|k: int|
            0 <= k < rows.len() ==> scattered@.row(#[trigger] rows[k]) == array@.row(k),
        forall|i: int|
            0 <= i < bits@.len() && !bits@[i] ==> #[trigger] scattered@.row(i) is None,
{
    crate::mask::filtering_keeps_the_set_rows_in_order(bits@, bits@, rows);
    assert forall|k: int| 0 <= k < rows.len() implies scattered@.row(#[trigger] rows[k])
        == array@.row(k) by {
        assert(rows.contains(rows[k]));
    }
}

/// A row that is broadcast is read at every row, be it a value or null.
pub proof fn broadcasting_repeats_the_row<V>(array: Array<V>, len: usize, repeated: Array<V>)
    requires
        array@.wf(),
        array@.len() == 1,
        call_ensures(Array::<V>::broadcast, (&array, len), repeated),
    ensures
        repeated@.len() == len,
        forall|i: int| 0 <= i < len ==> #[trigger] repeated@.row(i) == array@.row(0),
        repeated@.constant == Some(array@.row(0)),
        array@.row(0) is Some ==> repeated@.dtype == array@.dtype,
        array@.row(0) is None ==> repeated@.dtype == array@.dtype.with_nullability(
            Nullability::Nullable,
        ),
{
}

/// The row that stands for a constant is one row of its value, which is not null.
pub proof fn constants_stand_for_their_value<V>(array: Array<V>, value: V, row: Array<V>)
    requires
        array@.constant == Some(Some(value)),
        call_ensures(Array::<V>::constant_row, (&array,), row),
    ensures
        row@.valid =~= seq![true],
        row@.payload =~= seq![Some(value)],
        row@.constant == Some(Some(value)),
        row@.dtype == array@.dtype,
{
}

} // verus!
