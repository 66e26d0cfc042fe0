//! Row selections: which rows of a batch are set, and what filtering and scattering by them means.

use vstd::prelude::*;

verus! {

/// The number of set bits among the first `n`.
pub open spec fn rank(bits: Seq<bool>, n: int) -> nat
    decreases n,
{
    if n <= 0 {
        0
    } else {
        rank(bits, n - 1) + (if bits[n - 1] {
            1nat
        } else {
            0nat
        })
    }
}

/// The number of set bits.
pub open spec fn set_count(bits: Seq<bool>) -> nat {
    rank(bits, bits.len() as int)
}

pub open spec fn all_set(bits: Seq<bool>) -> bool {
    forall|i: int| 0 <= i < bits.len() ==> bits[i]
}

pub open spec fn none_set(bits: Seq<bool>) -> bool {
    forall|i: int| 0 <= i < bits.len() ==> !bits[i]
}

/// The rows of `values` at the set bits, in order.
pub open spec fn filtered<V>(values: Seq<V>, bits: Seq<bool>) -> Seq<V>
    decreases bits.len(),
{
    if bits.len() == 0 {
        Seq::empty()
    } else if bits.last() {
        filtered(values, bits.drop_last()).push(values[bits.len() - 1])
    } else {
        filtered(values, bits.drop_last())
    }
}

/// The positions of the set bits, in increasing order.
pub open spec fn set_indices(bits: Seq<bool>) -> Seq<int> {
    filtered(Seq::new(bits.len(), |i: int| i), bits)
}

/// One row per bit: the next of `values` at each set bit, and nothing at the others.
pub open spec fn scattered<V>(values: Seq<V>, bits: Seq<bool>) -> Seq<Option<V>> {
    Seq::new(
        bits.len(),
        |i: int|
            if bits[i] {
                Some(values[rank(bits, i) as int])
            } else {
                None
            },
    )
}

/// The rows that two selections share.
pub open spec fn both(left: Seq<bool>, right: Seq<bool>) -> Seq<bool> {
    Seq::new(left.len(), |i: int| left[i] && right[i])
}

pub proof fn lemma_rank_drop_last(bits: Seq<bool>, n: int)
    requires
        0 <= n < bits.len(),
    ensures
        rank(bits.drop_last(), n) == rank(bits, n),
    decreases n,
{
    if n > 0 {
        lemma_rank_drop_last(bits, n - 1);
    }
}

pub proof fn lemma_rank_monotone(bits: Seq<bool>, m: int, n: int)
    requires
        0 <= m <= n <= bits.len(),
    ensures
        rank(bits, m) <= rank(bits, n),
    decreases n - m,
{
    if m < n {
        lemma_rank_monotone(bits, m, n - 1);
    }
}

/// A set bit has a place of its own among the filtered rows.
pub proof fn lemma_rank_of_set(bits: Seq<bool>, i: int)
    requires
        0 <= i < bits.len(),
        bits[i],
    ensures
        rank(bits, i) < set_count(bits),
{
    assert(rank(bits, i + 1) == rank(bits, i) + 1);
    lemma_rank_monotone(bits, i + 1, bits.len() as int);
}

pub proof fn lemma_all_set_rank(bits: Seq<bool>, n: int)
    requires
        all_set(bits),
        0 <= n <= bits.len(),
    ensures
        rank(bits, n) == n,
    decreases n,
{
    if n > 0 {
        lemma_all_set_rank(bits, n - 1);
    }
}

pub proof fn lemma_filtered_len<V>(values: Seq<V>, bits: Seq<bool>)
    ensures
        filtered(values, bits).len() == set_count(bits),
    decreases bits.len(),
{
    if bits.len() > 0 {
        lemma_filtered_len(values, bits.drop_last());
        lemma_rank_drop_last(bits, bits.len() - 1);
    }
}

/// Filtering keeps the value of every set row, at the place that the row's rank gives.
pub proof fn lemma_filtered_at<V>(values: Seq<V>, bits: Seq<bool>, i: int)
    requires
        0 <= i < bits.len(),
        bits[i],
    ensures
        rank(bits, i) < filtered(values, bits).len(),
        filtered(values, bits)[rank(bits, i) as int] == values[i],
    decreases bits.len(),
{
    lemma_filtered_len(values, bits);
    lemma_rank_of_set(bits, i);
    lemma_rank_drop_last(bits, i);
    let front = bits.drop_last();
    lemma_filtered_len(values, front);
    lemma_rank_drop_last(bits, bits.len() - 1);
    if i == bits.len() - 1 {
    } else {
        assert(front[i]);
        lemma_filtered_at(values, front, i);
    }
}

/// The set row that a filtered row came from.
pub proof fn lemma_filtered_source<V>(values: Seq<V>, bits: Seq<bool>, k: int) -> (i: int)
    requires
        0 <= k < set_count(bits),
    ensures
        0 <= i < bits.len(),
        bits[i],
        rank(bits, i) == k,
        filtered(values, bits)[k] == values[i],
    decreases bits.len(),
{
    let last = bits.len() - 1;
    let front = bits.drop_last();
    lemma_rank_drop_last(bits, last);
    lemma_filtered_len(values, front);
    if bits.last() && k == rank(bits, last) {
        lemma_filtered_at(values, bits, last);
        last
    } else {
        let i = lemma_filtered_source(values, front, k);
        lemma_rank_drop_last(bits, i);
        lemma_filtered_at(values, bits, i);
        i
    }
}

/// Filtering by a full selection changes nothing.
pub proof fn lemma_filtered_all<V>(values: Seq<V>, bits: Seq<bool>)
    requires
        values.len() == bits.len(),
        all_set(bits),
    ensures
        filtered(values, bits) == values,
{
    lemma_filtered_len(values, bits);
    lemma_all_set_rank(bits, bits.len() as int);
    assert forall|i: int| 0 <= i < bits.len() implies filtered(values, bits)[i] == values[i] by {
        lemma_filtered_at(values, bits, i);
        lemma_all_set_rank(bits, i);
    }
    assert(filtered(values, bits) =~= values);
}

/// Scattering what was filtered puts every set row back in its place.
pub proof fn scatter_undoes_filter<V>(values: Seq<V>, bits: Seq<bool>)
    requires
        values.len() == bits.len(),
    ensures
        scattered(filtered(values, bits), bits) == Seq::new(
            bits.len(),
            |i: int|
                if bits[i] {
                    Some(values[i])
                } else {
                    None
                },
        ),
{
    assert forall|i: int| 0 <= i < bits.len() implies #[trigger] scattered(
        filtered(values, bits),
        bits,
    )[i] == (if bits[i] {
        Some(values[i])
    } else {
        None
    }) by {
        if bits[i] {
            lemma_filtered_at(values, bits, i);
        }
    }
    assert(scattered(filtered(values, bits), bits) =~= Seq::new(
        bits.len(),
        |i: int|
            if bits[i] {
                Some(values[i])
            } else {
                None
            },
    ));
}

/// Everything, nothing, or something in between.
#[derive(Debug)]
pub enum AllOr<T> {
    /// Every row is set.
    All,
    /// No row is set, and there is a row.
    Nothing,
    /// Some rows are set and some are not.
    Mixed(T),
}

/// A selection of the rows of a batch.
#[derive(Debug)]
pub struct Mask {
    bits: Vec<bool>,
}

impl View for Mask {
    type V = Seq<bool>;

    closed spec fn view(&self) -> Seq<bool> {
        self.bits@
    }
}

impl Mask {
    pub fn new_true(len: usize) -> (mask: Mask)
        ensures
            mask@.len() == len,
            all_set(mask@),
    {
        let mut bits: Vec<bool> = Vec::new();
        while bits.len() < len
            invariant
                bits@.len() <= len,
                all_set(bits@),
            decreases len - bits@.len(),
        {
            bits.push(true);
        }
        Mask { bits }
    }

    pub fn new_false(len: usize) -> (mask: Mask)
        ensures
            mask@.len() == len,
            none_set(mask@),
    {
        let mut bits: Vec<bool> = Vec::new();
        while bits.len() < len
            invariant
                bits@.len() <= len,
                none_set(bits@),
            decreases len - bits@.len(),
        {
            bits.push(false);
        }
        Mask { bits }
    }

    pub fn from_bits(bits: Vec<bool>) -> (mask: Mask)
        ensures
            mask@ == bits@,
    {
        Mask { bits }
    }

    pub fn len(&self) -> (len: usize)
        ensures
            len == self@.len(),
    {
        self.bits.len()
    }

    /// Whether row `index` is set.
    pub fn value(&self, index: usize) -> (result: bool)
        requires
            index < self@.len(),
        ensures
            result == self@[index as int],
    {
        self.bits[index]
    }

    /// The number of set rows.
    pub fn true_count(&self) -> (count: usize)
        ensures
            count == set_count(self@),
    {
        let mut count: usize = 0;
        let mut i: usize = 0;
        while i < self.bits.len()
            invariant
                i <= self.bits@.len(),
                count == rank(self.bits@, i as int),
                count <= i,
            decreases self.bits@.len() - i,
        {
            if self.bits[i] {
                count += 1;
            }
            i += 1;
        }
        count
    }

    pub fn all_true(&self) -> (result: bool)
        ensures
            result == all_set(self@),
    {
        let mut i: usize = 0;
        while i < self.bits.len()
            invariant
                i <= self.bits@.len(),
                forall|j: int| 0 <= j < i ==> self.bits@[j],
            decreases self.bits@.len() - i,
        {
            if !self.bits[i] {
                return false;
            }
            i += 1;
        }
        true
    }

    pub fn all_false(&self) -> (result: bool)
        ensures
            result == none_set(self@),
    {
        let mut i: usize = 0;
        while i < self.bits.len()
            invariant
                i <= self.bits@.len(),
                forall|j: int| 0 <= j < i ==> !self.bits@[j],
            decreases self.bits@.len() - i,
        {
            if self.bits[i] {
                return false;
            }
            i += 1;
        }
        true
    }

    /// The set rows, in increasing order, where some are set and some are not.
    pub fn indices(&self) -> (result: AllOr<Vec<usize>>)
        ensures
            match result {
                AllOr::All => all_set(self@),
                AllOr::Nothing => none_set(self@) && !all_set(self@),
                AllOr::Mixed(rows) => {
                    &&& !all_set(self@)
                    &&& !none_set(self@)
                    &&& rows@.map_values(|row: usize| row as int) == set_indices(self@)
                },
            },
    {
        if self.all_true() {
            return AllOr::All;
        }
        if self.all_false() {
            return AllOr::Nothing;
        }
        let ghost identity = Seq::new(self.bits@.len(), |i: int| i);
        let mut rows: Vec<usize> = Vec::new();
        let mut i: usize = 0;
        assert(rows@.map_values(|row: usize| row as int) =~= Seq::<int>::empty());
        while i < self.bits.len()
            invariant
                i <= self.bits@.len(),
                identity == Seq::new(self.bits@.len(), |i: int| i),
                rows@.map_values(|row: usize| row as int) == filtered(
                    identity,
                    self.bits@.take(i as int),
                ),
            decreases self.bits@.len() - i,
        {
            let ghost before = rows@;
            assert(self.bits@.take(i + 1).drop_last() =~= self.bits@.take(i as int));
            if self.bits[i] {
                rows.push(i);
                assert(rows@.map_values(|row: usize| row as int) =~= before.map_values(
                    |row: usize| row as int,
                ).push(i as int));
            }
            i += 1;
        }
        assert(self.bits@.take(i as int) =~= self.bits@);
        AllOr::Mixed(rows)
    }

    /// The bits, where some are set and some are not.
    pub fn bit_buffer(&self) -> (result: AllOr<&Mask>)
        ensures
            match result {
                AllOr::All => all_set(self@),
                AllOr::Nothing => none_set(self@) && !all_set(self@),
                AllOr::Mixed(bits) => !all_set(self@) && !none_set(self@) && bits == self,
            },
    {
        if self.all_true() {
            AllOr::All
        } else if self.all_false() {
            AllOr::Nothing
        } else {
            AllOr::Mixed(self)
        }
    }

    /// The rows set in both masks.
    pub fn and(&self, other: &Mask) -> (mask: Mask)
        requires
            self@.len() == other@.len(),
        ensures
            mask@ == both(self@, other@),
    {
        let mut bits: Vec<bool> = Vec::new();
        let mut i: usize = 0;
        while i < self.bits.len()
            invariant
                i <= self.bits@.len(),
                self.bits@.len() == other.bits@.len(),
                bits@ == both(self.bits@, other.bits@).take(i as int),
            decreases self.bits@.len() - i,
        {
            bits.push(self.bits[i] && other.bits[i]);
            i += 1;
            assert(bits@ =~= both(self.bits@, other.bits@).take(i as int));
        }
        assert(bits@ =~= both(self.bits@, other.bits@));
        Mask { bits }
    }

    pub fn duplicate(&self) -> (mask: Mask)
        ensures
            mask@ == self@,
    {
        let bits = self.bits.clone();
        assert(bits@ =~= self.bits@);
        Mask { bits }
    }
}

/// A mask holds the bits that it is made from: as many, and each in its place.
pub proof fn masks_hold_their_bits(bits: Vec<bool>, mask: Mask, len: usize, i: usize, bit: bool)
    requires
        call_ensures(Mask::from_bits, (bits,), mask),
        call_ensures(Mask::len, (&mask,), len),
        call_ensures(Mask::value, (&mask, i), bit),
    ensures
        len == bits@.len(),
        i < len ==> bit == bits@[i as int],
{
}

/// A mask that is made full has every row set, and one that is made empty none.
pub proof fn masks_are_made_full_or_empty(
    len: usize,
    full: Mask,
    empty: Mask,
    i: usize,
    set: bool,
    unset: bool,
)
    requires
        call_ensures(Mask::new_true, (len,), full),
        call_ensures(Mask::new_false, (len,), empty),
        call_ensures(Mask::value, (&full, i), set),
        call_ensures(Mask::value, (&empty, i), unset),
    ensures
        full@.len() == len,
        empty@.len() == len,
        i < len ==> set && !unset,
{
}

/// A row is set in what two masks share exactly where it is set in both, and a copy of a mask has
/// the same rows set.
pub proof fn masks_share_rows(left: Mask, right: Mask, shared: Mask, copied: Mask)
    requires
        left@.len() == right@.len(),
        call_ensures(Mask::and, (&left, &right), shared),
        call_ensures(Mask::duplicate, (&left,), copied),
    ensures
        shared@.len() == left@.len(),
        forall|i: int|
            0 <= i < left@.len() ==> #[trigger] shared@[i] == (left@[i] && right@[i]),
        copied@ == left@,
{
}

/// A mask is full exactly where every row is set, and empty exactly where none is. One of no rows
/// is both.
pub proof fn masks_know_whether_they_are_full(mask: Mask, full: bool, empty: bool)
    requires
        call_ensures(Mask::all_true, (&mask,), full),
        call_ensures(Mask::all_false, (&mask,), empty),
    ensures
        full <==> forall|i: int| 0 <= i < mask@.len() ==> mask@[i],
        empty <==> forall|i: int| 0 <= i < mask@.len() ==> !mask@[i],
        full && empty <==> mask@.len() == 0,
{
    if full && empty && mask@.len() > 0 {
        assert(mask@[0]);
        assert(!mask@[0]);
    }
}

/// The positions of the set bits: each once, and one after the other.
pub proof fn set_bits_are_listed_in_order(bits: Seq<bool>)
    ensures
        set_indices(bits).len() == set_count(bits),
        forall|k: int|
            0 <= k < set_count(bits) ==> 0 <= #[trigger] set_indices(bits)[k] < bits.len()
                && bits[set_indices(bits)[k]],
        forall|j: int, k: int|
            0 <= j < k < set_count(bits) ==> #[trigger] set_indices(bits)[j]
                < #[trigger] set_indices(bits)[k],
        forall|i: int| 0 <= i < bits.len() && bits[i] ==> #[trigger] set_indices(bits).contains(i),
{
    let positions = Seq::new(bits.len(), |i: int| i);
    lemma_filtered_len(positions, bits);
    assert forall|k: int| 0 <= k < set_count(bits) implies 0 <= #[trigger] set_indices(bits)[k]
        < bits.len() && bits[set_indices(bits)[k]] && rank(bits, set_indices(bits)[k]) == k by {
        let i = lemma_filtered_source(positions, bits, k);
    }
    assert forall|j: int, k: int| 0 <= j < k < set_count(bits) implies #[trigger] set_indices(
        bits,
    )[j] < #[trigger] set_indices(bits)[k] by {
        let a = set_indices(bits)[j];
        let b = set_indices(bits)[k];
        if b <= a {
            lemma_rank_monotone(bits, b, a);
        }
    }
    assert forall|i: int| 0 <= i < bits.len() && bits[i] implies #[trigger] set_indices(
        bits,
    ).contains(i) by {
        lemma_filtered_at(positions, bits, i);
        assert(set_indices(bits)[rank(bits, i) as int] == i);
    }
}

/// A mask counts its set rows: there is a list of that many rows in which each set row stands, in
/// increasing order and no other row does.
pub proof fn masks_count_their_set_rows(mask: Mask, count: usize)
    requires
        call_ensures(Mask::true_count, (&mask,), count),
    ensures
        exists|rows: Seq<int>|
            {
                &&& rows.len() == count
                &&& forall|j: int, k: int| 0 <= j < k < rows.len() ==> rows[j] < rows[k]
                &&& forall|i: int|
                    #[trigger] rows.contains(i) <==> 0 <= i < mask@.len() && mask@[i]
            },
{
    set_bits_are_listed_in_order(mask@);
    let rows = set_indices(mask@);
    assert forall|i: int| #[trigger] rows.contains(i) implies 0 <= i < mask@.len() && mask@[i] by {
        let k = choose|k: int| 0 <= k < rows.len() && rows[k] == i;
    }
}

/// A mask lists its set rows in increasing order, where some rows are set and some are not.
pub proof fn masks_list_their_set_rows(mask: Mask, listed: AllOr<Vec<usize>>)
    requires
        call_ensures(Mask::indices, (&mask,), listed),
    ensures
        match listed {
            AllOr::All => forall|i: int| 0 <= i < mask@.len() ==> mask@[i],
            AllOr::Nothing => mask@.len() > 0 && forall|i: int|
                0 <= i < mask@.len() ==> !mask@[i],
            AllOr::Mixed(rows) => {
                &&& exists|i: int| 0 <= i < mask@.len() && !mask@[i]
                &&& rows@.len() > 0
                &&& forall|k: int|
                    0 <= k < rows@.len() ==> #[trigger] rows@[k] < mask@.len()
                        && mask@[rows@[k] as int]
                &&& forall|j: int, k: int| 0 <= j < k < rows@.len() ==> rows@[j] < rows@[k]
                &&& forall|i: usize| i < mask@.len() && mask@[i as int] ==> rows@.contains(i)
            },
        },
{
    set_bits_are_listed_in_order(mask@);
    if let AllOr::Mixed(rows) = listed {
        let listed = rows@.map_values(|row: usize| row as int);
        assert(listed.len() == rows@.len());
        assert forall|k: int| 0 <= k < rows@.len() implies rows@[k] == set_indices(mask@)[k] by {
            assert(listed[k] == rows@[k]);
        }
        let set = choose|i: int| 0 <= i < mask@.len() && mask@[i];
        assert(set_indices(mask@).contains(set));
        assert forall|i: usize| i < mask@.len() && mask@[i as int] implies rows@.contains(i) by {
            assert(set_indices(mask@).contains(i as int));
            let k = choose|k: int| 0 <= k < listed.len() && listed[k] == i;
            assert(rows@[k] == i);
        }
    }
}

/// Filtering keeps exactly the values at set bits, in their order: the values at any list of the
/// set bits that is in increasing order.
pub proof fn filtering_keeps_the_set_rows_in_order<V>(
    values: Seq<V>,
    bits: Seq<bool>,
    rows: Seq<int>,
)
    requires
        values.len() == bits.len(),
        forall|j: int, k: int| 0 <= j < k < rows.len() ==> rows[j] < rows[k],
        forall|i: int| #[trigger] rows.contains(i) <==> 0 <= i < bits.len() && bits[i],
    ensures
        set_count(bits) == rows.len(),
        filtered(values, bits) == Seq::new(rows.len(), |k: int| values[rows[k]]),
        forall|k: int| 0 <= k < rows.len() ==> rank(bits, #[trigger] rows[k]) == k,
    decreases bits.len(),
{
    if bits.len() == 0 {
        if rows.len() > 0 {
            assert(rows.contains(rows[0]));
        }
    } else {
        let last = bits.len() - 1;
        let front = bits.drop_last();
        let fewer = if bits.last() {
            rows.drop_last()
        } else {
            rows
        };
        if bits.last() {
            assert(rows.contains(last));
            let at = choose|k: int| 0 <= k < rows.len() && rows[k] == last;
            assert(rows.contains(rows[rows.len() - 1]));
            assert(rows.last() == last);
        }
        assert forall|i: int| #[trigger] fewer.contains(i) <==> 0 <= i < front.len()
            && front[i] by {
            if fewer.contains(i) {
                let k = choose|k: int| 0 <= k < fewer.len() && fewer[k] == i;
                assert(rows[k] == i);
                assert(rows.contains(i));
                if bits.last() {
                    assert(rows[k] < rows[rows.len() - 1]);
                }
            }
            if 0 <= i < front.len() && front[i] {
                assert(bits[i]);
                assert(rows.contains(i));
                let k = choose|k: int| 0 <= k < rows.len() && rows[k] == i;
                assert(fewer[k] == i);
            }
        }
        filtering_keeps_the_set_rows_in_order(values.drop_last(), front, fewer);
        lemma_filtered_front(values, front);
        lemma_rank_drop_last(bits, last);
        assert forall|k: int| 0 <= k < rows.len() implies rank(bits, #[trigger] rows[k]) == k by {
            assert(rows.contains(rows[k]));
            lemma_rank_drop_last(bits, rows[k]);
            if k < fewer.len() {
                assert(rows[k] == fewer[k]);
            }
        }
        assert(filtered(values, bits) =~= Seq::new(rows.len(), |k: int| values[rows[k]])) by {
            assert forall|k: int| 0 <= k < fewer.len() implies values.drop_last()[fewer[k]]
                == values[fewer[k]] by {
                assert(fewer.contains(fewer[k]));
            }
        }
    }
}

/// Values behind the last bit do not matter.
proof fn lemma_filtered_front<V>(values: Seq<V>, bits: Seq<bool>)
    requires
        values.len() == bits.len() + 1,
    ensures
        filtered(values.drop_last(), bits) == filtered(values, bits),
{
    lemma_filtered_len(values.drop_last(), bits);
    lemma_filtered_len(values, bits);
    assert forall|k: int| 0 <= k < set_count(bits) implies filtered(values.drop_last(), bits)[k]
        == filtered(values, bits)[k] by {
        let i = lemma_filtered_source(values, bits, k);
        lemma_filtered_at(values.drop_last(), bits, i);
    }
    assert(filtered(values.drop_last(), bits) =~= filtered(values, bits));
}

/// A mask hands out its own bits where some rows are set and some are not.
pub proof fn masks_hand_out_their_bits(mask: Mask, handed: AllOr<&Mask>)
    requires
        call_ensures(Mask::bit_buffer, (&mask,), handed),
    ensures
        handed is All <==> forall|i: int| 0 <= i < mask@.len() ==> mask@[i],
        handed is Nothing <==> mask@.len() > 0 && forall|i: int|
            0 <= i < mask@.len() ==> !mask@[i],
        handed matches AllOr::Mixed(bits) ==> bits@ == mask@,
{
    if mask@.len() > 0 && all_set(mask@) && none_set(mask@) {
        assert(mask@[0]);
        assert(!mask@[0]);
    }
}

} // verus!
